# async_hid

An asynchronous HID library whose core is verified with Verus.

- `src/` is the verified library: report sizes (`report`), device descriptions
  built from what a WebHID device reports (`descriptor`), device ids, descriptions
  and events (`device_info`), request filters (`filter`), the registry that keeps
  device ids stable (`store`), the registration of granted devices (`webhid`), the
  framing of input, output and feature reports (`buffer`), the default backend of
  each platform (`backend`) and the error type (`error`).
- `app/` is the browser side of the WebHID backend: it reads the JavaScript
  objects that the browser hands out, awaits its promises and installs its
  callbacks, and leaves every computation and decision to the library. It needs
  the WebHID bindings of `web-sys`, which that crate only provides when built with
  `--cfg=web_sys_unstable_apis` for a wasm32 target.
- `tests/` runs the library on concrete values.
