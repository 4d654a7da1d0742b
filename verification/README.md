# leopardwm

Layout core of a tiling window manager, verified with Verus.

- A workspace can run the *Focus + Reel* model: one live main window, and a ring
  of thumbnails beside it that scrolls like a slot machine. Promoting a
  thumbnail turns the merged sequence of main window and ring.
- Windows are kept off monitors they do not belong to: a placement that crosses
  an edge shared with another monitor is cut there, parked off screen where
  nothing is left of it, and parked too once its application has rejected the
  slice.

`src/` is the verified library, `tests/` runs it on concrete values, and `app/`
is the host side: floating-point scrolling, the native window system,
persistence and build stamps.

Scroll positions are floating-point numbers. The library carries them as bit
patterns; what arithmetic yields is handed in by the host as a `Retarget` (a new
scroll target) or a `ReelFrame` (the pixel rows of one frame).

Contracts speak of views: `ReelView` for a reel, `LayoutView` for its layout,
`PlanView` for a presentation plan, `PhysicalView` for the bookkeeping of
placements. What holds across operations is stated by the `law_` functions.
