# firmware

Control logic of four small STM32F072 boards (a temperature controller, a
battery power switch, a two-component dosing pump and a bench test board),
verified with Verus.

- `src/` is the verified library: ADC conversions (supply voltage from the
  internal reference, chip temperature from the factory calibration points,
  divider and current-sense scaling), the supply monitor and its switch-off
  decision, the dosing pump's pulse counter and motor duties, the sign-change
  memory of the take-back-half regulator, and the text and pacing of the
  serial and display reports.
- `app/` is the firmware around it: peripheral setup, tasks, the floating
  point regulators and thermistor model, and the CAN messaging.
- `tests/` runs the library on concrete values.
