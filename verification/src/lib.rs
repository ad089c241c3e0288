//! Verified control logic of a family of small STM32F0 firmwares: ADC
//! conversions, supply monitoring, dosing-pump bookkeeping and report
//! formatting.

pub mod arith;
pub mod adc;
pub mod supply;
pub mod pump;
pub mod tbh;
pub mod pwm;
pub mod report;
pub mod traits;
