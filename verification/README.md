# rp-wheel-bridge

The verified core of a bridge that lets a Logitech G PRO Racing Wheel for Xbox/PC (046d:c272) work
on a PlayStation 5 as the PlayStation-mode G PRO (046d:c269), and the RP2350 firmware around it.

```text
PS5 -- native USB --> RP2350 <-- PIO USB host -- USB hub -+- G PRO (c272)
       (c269 device)                                      +- licensed PS4 controller
                                                             (authentication)
```

- `src/` is the library: what is answered to the console, what is forwarded, what is asked of the
  wheel and of the signing controller, and what is logged. Every function has a contract that Verus
  proves; the functions named `law_...` state what holds across them. Nothing in it waits or talks
  to hardware: each function takes what happened and the time, and says what to do next.
- `app/` is the firmware: tasks, transfers, timers and pins. It carries out what the library says.
- `tests/` runs the library on concrete values.

The queues between the two sides and the log buffer are `embassy-sync` channels and a pipe, SETUP
packets and configuration descriptors go through `embassy-usb-host`, and endpoint addresses through
`embassy-usb-driver`. Each such call stands behind a small function whose doc comment says what is
relied on.
