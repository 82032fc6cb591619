# convolution_plug

A convolution reverb plug-in. The library under `src/` is written in Verus and
holds the plug-in's decision logic with its contracts and proofs:

- `wav`: decoding impulse responses from WAV bytes (through `hound`) into
  integer samples per channel, with their full-scale value;
- `tasks`: the bookkeeping of the loaded impulse response and its processing
  settings, and what each background task does to the convolvers;
- `dsp`: how the impulse response's channels feed the two convolvers, and the
  blocks in which a host buffer runs through the audio graph;
- `editor`: which parameter changes are reported to the editor's page, lookup
  of parameters by id, the script that hands a message to the page, and which
  embedded asset answers a request;
- `callbacks`: the parameter indices that change callbacks report;
- `ipc`, `processing`, `webview`: the values shared with the editor.

`app/` is the plug-in around it: nih-plug glue, the FunDSP graph, the
floating-point sample processing and the web-view window.
