# orbtk_core

The verified core of a small widget toolkit, written in Verus.

- `src/types.rs`, `src/selector.rs`: plain property values (brushes, thicknesses,
  constraints, UTF-16 texts) and the style selector of a widget (element, states,
  dirty flag).
- `src/property.rs`: typed widget properties and the store that holds them by entity
  and name.
- `src/theme.rs`: themes as ordered style rules; the last rule that applies to a
  selector and names a property gives its value.
- `src/entity.rs`: the entity tree (children of each entity) and the entity/component
  manager.
- `src/styling.rs`: what applying a theme does to the properties of widgets, with the
  laws it obeys; `src/restyle.rs`: that applying it a second time changes nothing.
- `src/widget_container.rs`: access to the properties of one widget, and theming of a
  widget subtree according to widget states.
- `src/tree.rs`, `src/application.rs`: the widget tree built from a root widget, its
  text listing, and the description of an application window.
- `src/window.rs`: event and redraw bookkeeping of a window.

Numeric style properties are unsigned integers: every value a theme assigns to them is
one. A floating-point theme value (an opacity) is held as its IEEE 754 bits; the
opacity property itself, a float, is kept by `app/`. `app/` holds the window-system side (opening the window, reading its events,
drawing, the event loop) on top of `orbclient`.
