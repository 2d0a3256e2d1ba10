//! Decoder for the byte stream of an ARM Cortex-M Instrumentation Trace
//! Macrocell (ITM), which multiplexes up to 32 "stimulus port" channels over
//! one serial link as framed packets: a one-byte header giving the source
//! port and a type code, followed by the payload bytes the type code calls
//! for. The library extracts, in order, exactly the payload bytes addressed
//! to one configured stimulus port.

pub mod decoder;
pub mod packet;
