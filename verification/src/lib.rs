//! Verified core of the EF28 LED badge firmware: the machine-code generator
//! that drives the WS2812B LEDs from the low-power RISC-V core, the colour and
//! intensity arithmetic, the LED animations and the settings menu logic.

pub mod ef_led;
pub mod led_data;
pub mod animation;
pub mod control;
pub mod led;
pub mod buttons;
pub mod settings;
