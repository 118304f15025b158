# screenshare

Install-free screen sharing: the verified core of a native sender and viewer, and
the application around it.

- `src/` is the library. Every function in it is verified with Verus against the
  contract in its signature, except for four wrappers around outside functions,
  whose contracts are trusted:
  - `webrtc_client::codec::yuv420_from_bgra` calls `yuvutils_rs::bgra_to_yuv420`;
  - `render::depacketize` calls `Vp8Packet::depacketize` of `webrtc::rtp`;
  - `app::qr_picture` makes and draws a code with `qrcode`;
  - `text::to_uppercase` calls `str::to_uppercase`.
- `app/` is the program: command line, windows, capture devices, encoders,
  network. It performs what the library decides and reports back what happened.
- `tests/` run the library.

## Library

| Module | What it holds |
|---|---|
| `capture` | Quality presets. `capture::video`: downscaling, row padding, pacing, display choice. `capture::audio`: interleaving, packets, sample conversion. |
| `webrtc_client` | `codec`: BGRA to I420. `sender`: media pumps and the course of a share. `viewer`: the course of a viewing session. |
| `fallback` | Wire format of relayed frames. `congestion`: bandwidth controller. `relay`: decisions of the relay loops. |
| `render` | VP8 frame assembly, I420 to RGBA. |
| `signaling` | Requests and replies of the signaling protocol, relay URL. |
| `app` | State and decisions of the graphical interface, QR code. |
| `text`, `wire`, `single` | Text operations, little-endian integers, single-precision rounding on integers. |

Laws that relate several functions are public proof functions whose names start
with `law_`.

The sender tries WebRTC first. If that does not connect within 4 seconds, or
fails later, it announces the relay and sends its frames through a WebSocket,
where a controller adapts the bitrate to the uplink.

## Quality presets

| Preset | Resolution | FPS | VP8 bitrate ceiling |
|---|---|---|---|
| Low | 720p | 15 | 1.2 Mbps |
| Medium | 1080p | 24 | 2.5 Mbps |
| High (default) | 1080p | 30 | 4 Mbps |
| Ultra | 1080p | 60 | 8 Mbps |
| Original | native | 30 | 8 to 40 Mbps, by pixel count |

## Program

```bash
screenshare                       # graphical interface
screenshare share                 # headless sender
screenshare view ABCD1234 123456  # native viewer
screenshare probe                 # capture and permission probe
```

The backend can be set with `SCREENSHARE_BACKEND` or `--backend`.
