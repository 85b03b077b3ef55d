[package]
name = "ars-dom"
version = "0.1.0"
edition = "2021"
publish = false

[dependencies]
wasm-bindgen = "=0.2.130"
js-sys = "=0.3.107"

[dependencies.web-sys]
version = "=0.3.107"
features = [
    "AddEventListenerOptions",
    "AnimationEvent",
    "CssStyleDeclaration",
    "Document",
    "DomMatrixReadOnly",
    "DomRect",
    "Element",
    "Event",
    "EventTarget",
    "FocusEvent",
    "FocusOptions",
    "HtmlCollection",
    "HtmlElement",
    "IntersectionObserver",
    "IntersectionObserverEntry",
    "IntersectionObserverInit",
    "KeyboardEvent",
    "MediaQueryList",
    "MediaQueryListEvent",
    "MouseEvent",
    "MutationObserver",
    "MutationObserverInit",
    "MutationRecord",
    "Navigator",
    "Node",
    "NodeList",
    "Performance",
    "PointerEvent",
    "ResizeObserver",
    "ScrollBehavior",
    "ScrollIntoViewOptions",
    "ScrollLogicalPosition",
    "TransitionEvent",
    "VisibilityState",
    "VisualViewport",
    "Window",
]
