# lidart

The server of the LiDart scanning robot, split into a verified library and a
thin program around it.

`src/` (verified with Verus):

- `drive`: the serial frames sent to the motor controller, the drive
  commands of the user interface, and the order in which serial ports are
  tried.
- `serial_lines`: the buffer that turns the controller's replies into
  complete lines.
- `registry`: the numbered registries of open video connections.
- `landmarks`: the map of AprilTag landmarks and the choices made when a
  camera frame is analysed.
- `math`: 3x3 matrices and 3-vectors: entry positions, transpose, copying.
- `frame`: camera frames decoded to greyscale.
- `health`: the health answer.

`app/` holds the web server, the serial port and AprilTag I/O, and the
floating-point pose arithmetic.
