//! Session state machine: at most one open port per process, a connection
//! flag, and a cooperative stop flag for the background reader.
//!
//! The state machine decides; the caller performs the device work. `begin_open`
//! validates a configuration against the current state and hands back the
//! validated parameters; only on its success may the caller acquire the device
//! and then record it with `complete_open`. `close_port` and `send_data`
//! decide in the same way: the caller drops the handle when the state says it
//! was released, and writes exactly the bytes that `send_data` hands back.

use vstd::prelude::*;

use crate::config::{
    data_bits_from, parity_from, spec_data_bits_from, spec_parity_from, spec_stop_bits_from,
    stop_bits_from, PortConfig,
};
use crate::errors::{ConfigParam, SerialError};

verus! {

/// The process-wide session state: whether a device handle is held, whether
/// the session counts as connected, and whether the background reader was
/// asked to stop.
pub struct SerialState {
    port_held: bool,
    connected: bool,
    stop_flag: bool,
}

/// The state after a successful open: handle stored, connected, stop flag
/// reset for the new reader.
pub closed spec fn spec_complete_open(s: SerialState) -> SerialState {
    SerialState { port_held: true, connected: true, stop_flag: false }
}

/// The state after a close: a held handle is released and the reader is asked
/// to stop; an unopened session is left untouched.
pub closed spec fn spec_close(s: SerialState) -> SerialState {
    if s.port_held {
        SerialState { port_held: false, connected: false, stop_flag: true }
    } else {
        s
    }
}

/// The error an open attempt fails with, if any: a held port first, then the
/// line parameters in the order data bits, stop bits, parity.
pub open spec fn spec_open_error(
    s: SerialState,
    data_bits: u8,
    stop_bits: u8,
    parity: Seq<char>,
) -> Option<SerialError> {
    if s.spec_is_open() {
        Some(SerialError::AlreadyOpen)
    } else if spec_data_bits_from(data_bits) is None {
        Some(SerialError::InvalidConfig(ConfigParam::DataBits))
    } else if spec_stop_bits_from(stop_bits) is None {
        Some(SerialError::InvalidConfig(ConfigParam::StopBits))
    } else if spec_parity_from(parity) is None {
        Some(SerialError::InvalidConfig(ConfigParam::Parity))
    } else {
        None
    }
}

impl SerialState {
    /// A handle is held exactly while the session counts as connected.
    #[verifier::type_invariant]
    pub closed spec fn wf(self) -> bool {
        self.connected == self.port_held
    }

    /// Whether a device handle is currently held.
    pub closed spec fn spec_is_open(self) -> bool {
        self.port_held
    }

    /// The observable connection flag.
    pub closed spec fn spec_connected(self) -> bool {
        self.connected
    }

    /// Whether the background reader was asked to stop.
    pub closed spec fn spec_stop_requested(self) -> bool {
        self.stop_flag
    }

    /// A fresh session: no handle, not connected, no stop request.
    pub fn new() -> (s: SerialState)
        ensures
            !s.spec_is_open(),
            !s.spec_connected(),
            !s.spec_stop_requested(),
    {
        SerialState { port_held: false, connected: false, stop_flag: false }
    }

    /// Whether a device handle is currently held. Equal to the connection
    /// flag in every reachable state.
    pub fn is_open(&self) -> (r: bool)
        ensures
            r == self.spec_is_open(),
            r == self.spec_connected(),
    {
        proof {
            use_type_invariant(self);
        }
        self.port_held
    }

    /// The observable connection flag. Equal to handle possession in every
    /// reachable state.
    pub fn is_connected(&self) -> (r: bool)
        ensures
            r == self.spec_connected(),
            r == self.spec_is_open(),
    {
        proof {
            use_type_invariant(self);
        }
        self.connected
    }

    /// Whether the background reader was asked to stop.
    pub fn stop_requested(&self) -> (r: bool)
        ensures
            r == self.spec_stop_requested(),
    {
        self.stop_flag
    }

    /// Decides an open attempt without touching the device. Fails with
    /// `AlreadyOpen` while a port is held and with `InvalidConfig` on a
    /// parameter outside its legal set; on success it returns the validated
    /// configuration for the caller to acquire the device with. Takes the
    /// session by shared reference: a failed or pending open alters nothing.
    pub fn begin_open(
        &self,
        port_name: &str,
        baud_rate: u32,
        data_bits: u8,
        stop_bits: u8,
        parity: &str,
    ) -> (r: Result<PortConfig, SerialError>)
        ensures
            match spec_open_error(*self, data_bits, stop_bits, parity@) {
                Some(e) => r == Err::<PortConfig, SerialError>(e),
                None => (r matches Ok(cfg) && cfg.port_name@ == port_name@ && cfg.baud_rate
                    == baud_rate && Some(cfg.data_bits) == spec_data_bits_from(data_bits) && Some(
                    cfg.stop_bits,
                ) == spec_stop_bits_from(stop_bits) && Some(cfg.parity) == spec_parity_from(
                    parity@,
                )),
            },
    {
        if self.port_held {
            return Err(SerialError::AlreadyOpen);
        }
        let d_bits = match data_bits_from(data_bits) {
            Some(d) => d,
            None => {
                return Err(SerialError::InvalidConfig(ConfigParam::DataBits));
            },
        };
        let s_bits = match stop_bits_from(stop_bits) {
            Some(s) => s,
            None => {
                return Err(SerialError::InvalidConfig(ConfigParam::StopBits));
            },
        };
        let p_mode = match parity_from(parity) {
            Some(p) => p,
            None => {
                return Err(SerialError::InvalidConfig(ConfigParam::Parity));
            },
        };
        Ok(
            PortConfig {
                port_name: String::from_str(port_name),
                baud_rate,
                data_bits: d_bits,
                stop_bits: s_bits,
                parity: p_mode,
            },
        )
    }

    /// Records a successful device acquisition: the handle is stored, the
    /// session counts as connected, and the stop flag is reset for the new
    /// reader. Only legal after `begin_open` succeeded, that is, while no
    /// port is held.
    pub fn complete_open(&mut self)
        requires
            !old(self).spec_is_open(),
        ensures
            *final(self) == spec_complete_open(*old(self)),
            final(self).spec_is_open(),
            final(self).spec_connected(),
            !final(self).spec_stop_requested(),
    {
        *self = SerialState { port_held: true, connected: true, stop_flag: false };
    }

    /// Closes the session. Idempotent: with no port held it succeeds and
    /// changes nothing. Otherwise it asks the reader to stop, releases the
    /// handle (the caller drops it, which closes the device), and clears the
    /// connection flag. Never fails.
    pub fn close_port(&mut self) -> (r: Result<(), SerialError>)
        ensures
            r == Ok::<(), SerialError>(()),
            *final(self) == spec_close(*old(self)),
            !final(self).spec_is_open(),
            !final(self).spec_connected(),
            old(self).spec_is_open() ==> final(self).spec_stop_requested(),
            !old(self).spec_is_open() ==> *final(self) == *old(self),
    {
        proof {
            use_type_invariant(&*self);
        }
        if !self.port_held {
            return Ok(());
        }
        *self = SerialState { port_held: false, connected: false, stop_flag: true };
        Ok(())
    }

    /// Decides a send. With no port held it fails with `PortNotOpen`; with an
    /// open port it hands back exactly the given bytes, which the caller
    /// writes to the device in one write followed by one flush.
    pub fn send_data(&self, data: Vec<u8>) -> (r: Result<Vec<u8>, SerialError>)
        ensures
            self.spec_is_open() ==> r == Ok::<Vec<u8>, SerialError>(data),
            !self.spec_is_open() ==> r == Err::<Vec<u8>, SerialError>(SerialError::PortNotOpen),
    {
        if self.port_held {
            Ok(data)
        } else {
            Err(SerialError::PortNotOpen)
        }
    }
}

/// Law: opening a session and closing it immediately leaves it disconnected
/// with no held handle, whatever state it started from.
pub proof fn lemma_open_then_close_resets(s: SerialState)
    ensures
        !spec_close(spec_complete_open(s)).spec_connected(),
        !spec_close(spec_complete_open(s)).spec_is_open(),
{
}

/// Law: an open attempt while a port is already held always fails with
/// `AlreadyOpen`, whatever configuration was asked for. The attempt takes the
/// session by shared reference, so the existing session is left as it was.
pub proof fn lemma_open_while_open_fails(
    s: SerialState,
    data_bits: u8,
    stop_bits: u8,
    parity: Seq<char>,
)
    requires
        s.spec_is_open(),
    ensures
        spec_open_error(s, data_bits, stop_bits, parity) == Some(SerialError::AlreadyOpen),
{
}

/// Law: closing an unopened session succeeds and is a no-op.
pub proof fn lemma_close_when_closed_is_noop(s: SerialState)
    requires
        !s.spec_is_open(),
    ensures
        spec_close(s) == s,
{
}

/// Law: on an unopened session, a data-bits count outside {5, 6, 7, 8} or a
/// stop-bits count outside {1, 2} always fails with `InvalidConfig`, and the
/// open decision succeeds exactly when all three line parameters are legal.
pub proof fn lemma_bad_line_params_rejected(
    s: SerialState,
    data_bits: u8,
    stop_bits: u8,
    parity: Seq<char>,
)
    requires
        !s.spec_is_open(),
    ensures
        spec_data_bits_from(data_bits) is None ==> spec_open_error(s, data_bits, stop_bits, parity)
            == Some(SerialError::InvalidConfig(ConfigParam::DataBits)),
        spec_data_bits_from(data_bits) is Some && spec_stop_bits_from(stop_bits) is None
            ==> spec_open_error(s, data_bits, stop_bits, parity) == Some(
            SerialError::InvalidConfig(ConfigParam::StopBits),
        ),
        spec_open_error(s, data_bits, stop_bits, parity) is None <==> (spec_data_bits_from(
            data_bits,
        ) is Some && spec_stop_bits_from(stop_bits) is Some && spec_parity_from(parity) is Some),
{
}

} // verus!
