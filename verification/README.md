# yato-ae-gradient

An After Effects effect that paints a multi-stop gradient along a line the
user drags on the composition (Linear, Radial, Angular, Reflected, Diamond;
optional stops, reverse, repeat with mirroring, dither, opacity).

- `src/` is the verified library (Verus): parameter identities and style
  decoding (`params`), stop collection, stable sorting and segment lookup
  (`stops`), the dither hash (`dither`), fixed-point coordinate conversion
  through the `after-effects` crate (`coords`), the click/drag/draw replies
  of the custom UI (`ui`) and the render decisions (`render`).
- `app/` is the plugin shell: parameter registration, host calls, drawbot
  drawing and the per-pixel floating-point arithmetic.
- `tests/` exercises the library on concrete values.

Building `app/` as a plugin needs a PiPL resource step (for example with
the `pipl` crate), which provides the `PIPL_*` environment variables that
`define_effect!` reads.
