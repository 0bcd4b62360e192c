# ipc-tools

Inter-process calls on the Nintendo 3DS: building requests, reading replies, finding services.

A request is a header word, then *normal* parameters, which reach the other process as they are,
then *translated* parameters, which the kernel acts on: handles that it moves, buffers that it
copies or maps. The reply has the same form, with a result code for its first normal parameter.

- `src/` is the library. It works on plain words and addresses, and Verus proves it.
  - `header`, `descriptor`: the words that announce a message and its parameters
  - `translate`, `parse`: translated parameters, written and read
  - `receive`: the static buffers that a reply may fill
  - `command`: requests and replies in the command buffer
  - `service`: looking up services, and their names
  - `laws`: what holds of these taken together
- `app/` runs on the console. It takes addresses of references, finds the thread's local storage and
  makes the calls into the kernel, by way of `ctru` and `ctru_sys`.
- `tests/` holds the tests of the library.

For `AM:ReadTwlBackupInfo`, whose header is `0x001E00C8`:

```rust
let mut translate_params = TranslateParams::new();
translate_params
    .add_handles(true, false, vec![file_handle])
    .add_write_buffer(&mut output_info)
    .add_write_buffer(&mut banner)
    .add_write_buffer(&mut working_buffer);
let ((), _returned) = unsafe {
    send_cmd(
        service_handle,
        0x001E,
        params,
        translate_params,
        StaticReceiveParams::default(),
    )
}?;
```
