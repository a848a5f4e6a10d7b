# JetKVM RDP console

The RDP transport daemon of a JetKVM appliance.

`mstsc -> TCP/3389 -> jetkvm-rdp -> /run/jetkvm-rdp.sock -> jetkvm_app -> native HDMI/USB`

Video is not transcoded: the appliance's own H.264 frames go to the EGFX AVC420
pipeline of the RDP client as they are. Keyboard and mouse events become USB HID
state for the appliance.

`src/` is the daemon's logic, verified with Verus:

- `protocol`: the framing of the bridge, `type:u8`, `length:u32-le`, payload
- `video`: the payloads of video reports and frames, and the desktop size
- `bridge`: what is sent to the appliance, and what its messages call for
- `egfx`, `gfx`: the graphics pipeline, and the submission of frames to it
- `scancode`, `pointer`, `input`: from RDP input events to HID reports
- `display`: the desktop size and the first bitmap of a client
- `h264`, `hexdump`, `probe`: a diagnostic client that tells how frames are packaged

The contracts in `egfx` describe functions of `ironrdp-egfx` and `ironrdp-dvc`;
they are the only ones that are taken on trust.

`app/` is the program around it: sockets, the RDP server's hooks, and logging.
`JETKVM_RDP_BIND` and `JETKVM_RDP_SOCKET` set the address and the bridge socket.
With `h264-probe` as its argument the program samples `JETKVM_H264_PROBE_FRAMES`
frames (20 by default) and prints what they are made of.
