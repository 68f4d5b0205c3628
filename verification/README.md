# ef28_badge

Verified core of the firmware of the Eurofurence 28 LED badge, in Verus.

- `src/ef_led.rs`: the generator of the RISC-V machine code that the
  low-power core runs to send the colours to the WS2812B LEDs, with the proof
  that every bit takes the same time, that the program for the 17 LEDs fills
  the code buffer exactly and that the colours can be read back from it.
- `src/led_data.rs`, `src/control.rs`, `src/led.rs`: colours and their
  scaling by an intensity.
- `src/animation/`: the flag and breathing animations and the animator.
- `src/buttons.rs`, `src/settings.rs`: button events, the decisions of the
  settings menus and the settings word shared with the low-power core.
- `app/`: the firmware around the library (drivers, tasks, display, inline
  assembly), which only builds for the ESP32-S3.
