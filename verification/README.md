# can_flash

Uploads firmware images to devices on a classic CAN bus, with a sliding window and
acknowledgements. The protocol is a state machine that is verified with Verus and never touches
the bus itself.

- `src/frame.rs`: identifiers and frames, checked by `can_hal`
- `src/wire.rs`: the bytes of headers, data frames and acknowledgements
- `src/chunks.rs`: how a binary is cut into chunks
- `src/upload.rs`: the upload as a state machine, from events to actions
- `src/laws.rs`: what holds of whole uploads, such as that success delivers the binary
- `src/web.rs`: the answers of the HTTP service
- `app/`: the service: the CAN channel, the clock and the HTTP server
