# helligkeit

Control Linux device brightness: backlights (`/sys/class/backlight`), leds
(`/sys/class/leds`) and, later, monitors over their display data channel.

The library in `src/` takes every decision and proves it correct against its
contract: reading the numbers in sysfs files, ranking and ordering devices,
picking the device a command addresses, parsing and resolving brightness
adjustments, and producing the text written back to a device. The program in
`app/` enumerates the devices, reads and writes their files, and prints.

- `text`: whitespace trimming, decimal numbers, substring search, name order
- `shared`: device classes, the `Device` trait, the ordering key
- `util`: numbers in device files, percentages, brightness lines
- `backlight`, `led`, `ddc`, `edid`: the device kinds
- `i2c`: the segments of I2C transfers
- `cli`: brightness values and adjustments
- `control`: device order, selection, listings and brightness requests
