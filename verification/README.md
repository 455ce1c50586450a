# iso14443

ISO/IEC 14443 Type A, verified with Verus: frame codecs (ATQA, SAK,
anticollision/SELECT, RATS/ATS, PPS, PCB, blocks, CRC_A), the block
protocol handler shared by reader and card, and the decisions of the
reader (activation, session, APDU exchange with chaining, WTX, recovery,
DESELECT) and of the card (activation responder, RATS, PPS, chaining,
DESELECT → HALT) as state machines whose steps take what was received and
return what to send.

Layout:

- `src/type_a/`: the verified library, one module per part of the
  standard; laws stand beside the functions they speak of as public proof
  functions.
- `tests/`: tests on concrete values, among them a reader and a card wired
  together in one thread.
- `app/`: what drives the state machines over real transceivers (the
  loops that send and receive), a threaded loopback demo and a
  command-line frame parser.
