# sensor_monitor

Firmware logic of an ESP32 sensor station (temperature, light, tilt, shock
and ultrasonic distance sensors, an OLED screen and a small web server),
with the decision-making parts written in Verus and proved.

- `src/` is the verified library:
  - `database/` holds the records, the in-memory store (`SensorRepository`)
    and the default database;
  - `monitor` holds the raw-sample checks, the breach rules and the alarm
    pass that keeps the alarm flags and the alarm history in step;
  - `distance` is the ultrasonic measurement as a state machine that the
    firmware drives one hardware action at a time;
  - `text` writes and reads decimal integers;
  - `website` builds the sensor list JSON and reads settings requests;
  - `network` builds the screen line shown while joining WiFi.
- `app/` is the firmware around it: pins, ADC, SPI screen, WiFi, HTTP
  server, threads, and the floating-point formulas.
- `tests/` runs the library on concrete cases.
