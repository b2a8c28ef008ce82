//! Utilities shared by the transports: buffer sizes, connection records and
//! error context.
use vstd::prelude::*;
use crate::config::{TransportConfig, TransportType};
use crate::error::TransportError;
use crate::text::{decimal, push_decimal, push_str};

verus! {

#[verifier::external_type_specification]
#[verifier::external_body]
pub struct ExInstant(std::time::Instant);

/// `Instant` is `Copy`: its clone is the same instant.
pub assume_specification[ <std::time::Instant as std::clone::Clone>::clone ](
    i: &std::time::Instant,
) -> (r: std::time::Instant)
    ensures
        r == *i,
;

/// A connection of a network transport.
#[derive(Debug, Clone)]
pub struct ConnectionInfo {
    pub target: String,
    pub transport_type: TransportType,
    pub created_at: std::time::Instant,
    pub last_used: std::time::Instant,
    pub messages_sent: u64,
}

/// Adds `context` to a service-not-found error; other errors pass through.
pub fn enrich_error(error: TransportError, context: &str) -> (r: TransportError)
    ensures
        error matches TransportError::ServiceNotFound(s) ==> (r matches TransportError::ServiceNotFound(
            t,
        ) && t@ == context@ + ": "@ + s@),
        !(error is ServiceNotFound) ==> r == error,
{
    match error {
        TransportError::ServiceNotFound(service) => {
            let mut m = context.to_owned();
            push_str(&mut m, ": ");
            push_str(&mut m, service.as_str());
            TransportError::ServiceNotFound(m)
        },
        other => other,
    }
}

/// Buffer sizes of a transport, in bytes.
#[derive(Debug, Clone, Copy, PartialEq, Eq, Structural)]
pub struct BufferSizes {
    pub read_buffer: usize,
    pub write_buffer: usize,
    pub frame_buffer: usize,
    pub socket_buffer: usize,
    pub serialization_buffer: usize,
}

/// The sizes made from a channel capacity: a base of the capacity (at least
/// 1024), times 64 for reading and writing, 8 for frames, 128 for sockets,
/// and the base (at least 4096) for serialisation.
pub open spec fn sizes_from_capacity(capacity: usize) -> BufferSizes {
    let base: int = if capacity >= 1024 {
        capacity as int
    } else {
        1024
    };
    BufferSizes {
        read_buffer: (base * 64) as usize,
        write_buffer: (base * 64) as usize,
        frame_buffer: (base * 8) as usize,
        socket_buffer: (base * 128) as usize,
        serialization_buffer: (if base >= 4096 {
            base
        } else {
            4096
        }) as usize,
    }
}

/// The message of the first size below its minimum, if any: reading and
/// writing need 1024 bytes, frames 512.
pub open spec fn sizes_problem(s: BufferSizes) -> Option<Seq<char>> {
    if s.read_buffer < 1024 {
        Some("read_buffer ("@ + decimal(s.read_buffer as nat) + ") must be at least 1024 bytes"@)
    } else if s.write_buffer < 1024 {
        Some("write_buffer ("@ + decimal(s.write_buffer as nat) + ") must be at least 1024 bytes"@)
    } else if s.frame_buffer < 512 {
        Some("frame_buffer ("@ + decimal(s.frame_buffer as nat) + ") must be at least 512 bytes"@)
    } else {
        None
    }
}

/// Sum of all the buffers.
pub open spec fn total_of(s: BufferSizes) -> int {
    s.read_buffer + s.write_buffer + s.frame_buffer + s.socket_buffer + s.serialization_buffer
}

impl Default for BufferSizes {
    fn default() -> (r: Self)
        ensures
            r == (BufferSizes {
                read_buffer: 65536,
                write_buffer: 65536,
                frame_buffer: 8192,
                socket_buffer: 131072,
                serialization_buffer: 1024,
            }),
    {
        BufferSizes {
            read_buffer: 65536,
            write_buffer: 65536,
            frame_buffer: 8192,
            socket_buffer: 131072,
            serialization_buffer: 1024,
        }
    }
}

impl BufferSizes {
    /// Sizes scaled from the channel capacity.
    pub fn from_config(config: &TransportConfig) -> (r: Self)
        requires
            config.channel_capacity * 128 <= usize::MAX,
        ensures
            r == sizes_from_capacity(config.channel_capacity),
    {
        let base: usize = if config.channel_capacity >= 1024 {
            config.channel_capacity
        } else {
            1024
        };
        BufferSizes {
            read_buffer: base * 64,
            write_buffer: base * 64,
            frame_buffer: base * 8,
            socket_buffer: base * 128,
            serialization_buffer: if base >= 4096 {
                base
            } else {
                4096
            },
        }
    }

    /// Large buffers for throughput.
    pub fn for_high_throughput() -> (r: Self)
        ensures
            r == (BufferSizes {
                read_buffer: 1048576,
                write_buffer: 1048576,
                frame_buffer: 262144,
                socket_buffer: 2097152,
                serialization_buffer: 65536,
            }),
    {
        BufferSizes {
            read_buffer: 1048576,
            write_buffer: 1048576,
            frame_buffer: 262144,
            socket_buffer: 2097152,
            serialization_buffer: 65536,
        }
    }

    /// Small buffers for latency.
    pub fn for_low_latency() -> (r: Self)
        ensures
            r == (BufferSizes {
                read_buffer: 16384,
                write_buffer: 16384,
                frame_buffer: 4096,
                socket_buffer: 32768,
                serialization_buffer: 256,
            }),
    {
        BufferSizes {
            read_buffer: 16384,
            write_buffer: 16384,
            frame_buffer: 4096,
            socket_buffer: 32768,
            serialization_buffer: 256,
        }
    }

    /// The smallest buffers.
    pub fn for_memory_constrained() -> (r: Self)
        ensures
            r == (BufferSizes {
                read_buffer: 8192,
                write_buffer: 8192,
                frame_buffer: 2048,
                socket_buffer: 16384,
                serialization_buffer: 128,
            }),
    {
        BufferSizes {
            read_buffer: 8192,
            write_buffer: 8192,
            frame_buffer: 2048,
            socket_buffer: 16384,
            serialization_buffer: 128,
        }
    }

    /// Checks the minimum sizes; fails with `InvalidConfig` naming the first
    /// buffer that is too small.
    pub fn validate(&self) -> (r: Result<(), TransportError>)
        ensures
            sizes_problem(*self) is None ==> r is Ok,
            sizes_problem(*self) matches Some(m) ==> (r matches Err(
                TransportError::InvalidConfig(t),
            ) && t@ == m),
    {
        if self.read_buffer < 1024 {
            let mut m = String::new();
            push_str(&mut m, "read_buffer (");
            push_decimal(&mut m, self.read_buffer as u64);
            push_str(&mut m, ") must be at least 1024 bytes");
            return Err(TransportError::InvalidConfig(m));
        }
        if self.write_buffer < 1024 {
            let mut m = String::new();
            push_str(&mut m, "write_buffer (");
            push_decimal(&mut m, self.write_buffer as u64);
            push_str(&mut m, ") must be at least 1024 bytes");
            return Err(TransportError::InvalidConfig(m));
        }
        if self.frame_buffer < 512 {
            let mut m = String::new();
            push_str(&mut m, "frame_buffer (");
            push_decimal(&mut m, self.frame_buffer as u64);
            push_str(&mut m, ") must be at least 512 bytes");
            return Err(TransportError::InvalidConfig(m));
        }
        Ok(())
    }

    /// Sum of all the buffers.
    pub fn total_memory_usage(&self) -> (r: usize)
        requires
            total_of(*self) <= usize::MAX,
        ensures
            r == total_of(*self),
    {
        self.read_buffer + self.write_buffer + self.frame_buffer + self.socket_buffer
            + self.serialization_buffer
    }
}

/// Every preset, and every size made from a configuration, passes
/// validation.
pub proof fn lemma_presets_valid(capacity: usize)
    requires
        capacity * 128 <= usize::MAX,
    ensures
        sizes_problem(
            BufferSizes {
                read_buffer: 65536,
                write_buffer: 65536,
                frame_buffer: 8192,
                socket_buffer: 131072,
                serialization_buffer: 1024,
            },
        ) is None,
        sizes_problem(
            BufferSizes {
                read_buffer: 1048576,
                write_buffer: 1048576,
                frame_buffer: 262144,
                socket_buffer: 2097152,
                serialization_buffer: 65536,
            },
        ) is None,
        sizes_problem(
            BufferSizes {
                read_buffer: 16384,
                write_buffer: 16384,
                frame_buffer: 4096,
                socket_buffer: 32768,
                serialization_buffer: 256,
            },
        ) is None,
        sizes_problem(
            BufferSizes {
                read_buffer: 8192,
                write_buffer: 8192,
                frame_buffer: 2048,
                socket_buffer: 16384,
                serialization_buffer: 128,
            },
        ) is None,
        sizes_problem(sizes_from_capacity(capacity)) is None,
{
}

} // verus!
