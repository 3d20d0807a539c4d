# irig_asio

A Windows ASIO driver for the IK Multimedia iRig USB and the vendor's other
class-compliant interfaces, with its logic verified in Verus.

- `src/` is the library: every decision, table, parser and state machine of the
  driver, its installer and its signal probe, each with a contract. Pointers,
  handles and files do not occur in it; what may be null is an `Option`, a handle
  is a number, and a loop that talks to the system is a function from an event to
  the next action.
- `app/` is ordinary Rust around it: the COM tables, the streaming threads, the
  Windows calls and the floating-point conversion of samples. The modules whose
  names begin with `win_` exist on Windows only.
- `tests/` runs the library on concrete values.

Where to look:

| Module | Subject |
|---|---|
| `asio_driver`, `asio_com` | the methods of the ASIO interface |
| `com_server`, `dll`, `registration` | class factory, DLL entry points, registry |
| `buffer_manager`, `pcm`, `le` | double-buffers and sample layouts |
| `wasapi_backend`, `endpoint` | streaming through the audio engine |
| `ks_device`, `ks_pin`, `ks_property`, `ks_stream`, `ks_engine` | kernel streaming |
| `sample_rate`, `guid`, `utf16`, `text` | rates, identifiers, text |
| `installer`, `probe` | the two tools |

Proof functions whose names begin with `law_` state what holds over several calls.
