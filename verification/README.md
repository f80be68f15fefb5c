# sensors

Reads the sensors of a Linux machine: processor load, temperature and voltage, main memory, disk and
network traffic, fans, and the graphics cards of NVIDIA, AMD and Intel.

The decisions are in `src/`, verified with Verus: which files to look at and in which order, which
chip, channel or card to take, how to read a line of `/proc/stat`, what to remember between two
looks. A sensor that has to search is a *probe*: it names a query, is given the reply, and goes on
until it has a reading. What a probe does is stated as a plan, and `host::follow` takes any probe to
its end.

| module    | what it holds                                                        |
|-----------|----------------------------------------------------------------------|
| `host`    | queries and replies, plans, probes, and the loop that follows a probe |
| `reading` | what a sensor shows, kept exact                                      |
| `file`    | files that hold one number                                           |
| `hwmon`   | the monitoring chips under `/sys/class/hwmon`                        |
| `gpu`     | the sensors of a graphics card                                       |
| `listing` | the list of the graphics cards                                       |
| `cpu`     | the load of the processor                                            |
| `memory`  | the main memory                                                      |
| `traffic` | disks and networks                                                   |
| `text`, `number`, `order` | text, decimal numbers and the order of names         |

`app/` reads the files, asks the NVIDIA driver and the operating system, and does the
floating-point arithmetic.
