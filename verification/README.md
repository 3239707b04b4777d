# nrf54_audio

Audio on the nRF54LM20 board: a PDM microphone, keyword spotting on the Axon
engine, and a host tool that records the microphone. The decisions are a library
that Verus verifies; the code that touches registers, the debug probe, files or
floating-point numbers is around it.

## Layout

    src/mmio.rs       register accesses as data, and the order they are made in
    src/pdm.rs        the PDM peripheral: set-up, start, two buffers in turn, stop
    src/mic.rs        is the microphone's data line alive?
    src/pcm.rs        samples as bytes, and back from chunks of any length
    src/capture.rs    the recording tool's decisions
    src/elf.rs        the log transport's control block in a firmware file
    src/model.rs      picking the compiled model that is linked
    src/platform.rs   what the engine's driver asks of the platform
    src/quant.rs      the integer half of quantization
    src/recent.rs     remembering the latest items of a stream
    src/text.rs       decimal numbers as text
    src/kws/          keyword spotting: frames, feature window, smoothing,
                      detection, watchdog, engine power, boot, self-tests, log
                      lines; timeline.rs states what holds over a whole stream
    tests/            the library on concrete values
    app/main.rs       the recording tool
    app/firmware/     the images' device code and the MFCC features

What depends on the device is written as steps: a function takes what the caller
has seen and says what to do next. The caller does it and hands back what came of
it.

Proof functions whose names begin with `law_` state what holds of several
functions together, such as that samples arrive unchanged however the transport
cuts their bytes, or that two detections are at least a second apart.

One thing is believed rather than proved: the reading of a symbol table with the
`object` crate, in `src/elf.rs`. A single function there makes the four calls (parse
the file, list its symbols, take each one's name and address).
