//! Port binding: each plugin declares its ports by index, keeps one raw
//! address per port, and turns that table into typed views once per block.
//! An address is the plain number the host handed over; zero means "not
//! connected". A view says what the address is read as: one value, a run of
//! `sample_count` samples, or an atom container.
use vstd::prelude::*;

verus! {

/// One control value, read by the plugin.
#[derive(Clone, Copy, Debug, PartialEq, Eq, Structural)]
pub struct ControlRef {
    pub addr: usize,
}

/// One control value, written by the plugin.
#[derive(Clone, Copy, Debug, PartialEq, Eq, Structural)]
pub struct ControlMut {
    pub addr: usize,
}

/// A block of audio samples, read by the plugin.
#[derive(Clone, Copy, Debug, PartialEq, Eq, Structural)]
pub struct AudioRef {
    pub addr: usize,
    pub len: usize,
}

/// A block of audio samples, written by the plugin.
#[derive(Clone, Copy, Debug, PartialEq, Eq, Structural)]
pub struct AudioMut {
    pub addr: usize,
    pub len: usize,
}

/// An atom sequence, read by the plugin.
#[derive(Clone, Copy, Debug, PartialEq, Eq, Structural)]
pub struct SequenceRef {
    pub addr: usize,
}

/// The kind and direction of one port.
pub trait Port {
    /// The typed view of the port for one block.
    type Field;

    /// `field` is the view of a port whose slot holds `raw`, for a block of
    /// `sample_count` samples.
    spec fn views(field: Self::Field, raw: usize, sample_count: usize) -> bool;

    /// The slot of a port not yet connected.
    fn new_raw() -> (r: usize)
        ensures
            r == 0,
    ;

    /// The slot of a port connected to `data`.
    fn cast_raw(data: usize) -> (r: usize)
        ensures
            r == data,
    ;

    /// The view of the port for a block of `sample_count` samples.
    fn convert(raw: usize, sample_count: usize) -> (r: Self::Field)
        ensures
            Self::views(r, raw, sample_count),
    ;
}

/// An input control port.
pub struct InputControl;

/// An output control port.
pub struct OutputControl;

/// An input audio port.
pub struct InputAudio;

/// An output audio port.
pub struct OutputAudio;

/// An input port that carries an atom sequence.
pub struct InputSequence;

impl Port for InputControl {
    type Field = ControlRef;

    open spec fn views(field: ControlRef, raw: usize, sample_count: usize) -> bool {
        field.addr == raw
    }

    fn new_raw() -> usize {
        0
    }

    fn cast_raw(data: usize) -> usize {
        data
    }

    fn convert(raw: usize, sample_count: usize) -> ControlRef {
        ControlRef { addr: raw }
    }
}

impl Port for OutputControl {
    type Field = ControlMut;

    open spec fn views(field: ControlMut, raw: usize, sample_count: usize) -> bool {
        field.addr == raw
    }

    fn new_raw() -> usize {
        0
    }

    fn cast_raw(data: usize) -> usize {
        data
    }

    fn convert(raw: usize, sample_count: usize) -> ControlMut {
        ControlMut { addr: raw }
    }
}

impl Port for InputAudio {
    type Field = AudioRef;

    open spec fn views(field: AudioRef, raw: usize, sample_count: usize) -> bool {
        field.addr == raw && field.len == sample_count
    }

    fn new_raw() -> usize {
        0
    }

    fn cast_raw(data: usize) -> usize {
        data
    }

    fn convert(raw: usize, sample_count: usize) -> AudioRef {
        AudioRef { addr: raw, len: sample_count }
    }
}

impl Port for OutputAudio {
    type Field = AudioMut;

    open spec fn views(field: AudioMut, raw: usize, sample_count: usize) -> bool {
        field.addr == raw && field.len == sample_count
    }

    fn new_raw() -> usize {
        0
    }

    fn cast_raw(data: usize) -> usize {
        data
    }

    fn convert(raw: usize, sample_count: usize) -> AudioMut {
        AudioMut { addr: raw, len: sample_count }
    }
}

impl Port for InputSequence {
    type Field = SequenceRef;

    open spec fn views(field: SequenceRef, raw: usize, sample_count: usize) -> bool {
        field.addr == raw
    }

    fn new_raw() -> usize {
        0
    }

    fn cast_raw(data: usize) -> usize {
        data
    }

    fn convert(raw: usize, sample_count: usize) -> SequenceRef {
        SequenceRef { addr: raw }
    }
}

/// A plugin's table of ports: indices `0..port_count()`, one raw slot each.
pub trait Ported {
    /// The typed views of all ports for one block.
    type Ports;

    /// One raw address slot per port.
    type PortsRaw;

    spec fn port_count() -> nat;

    /// The address in the slot of port `i`.
    spec fn slot(raw: Self::PortsRaw, i: int) -> usize;

    /// `ports` are the views of the table `raw` for a block of
    /// `sample_count` samples.
    spec fn views(ports: Self::Ports, raw: Self::PortsRaw, sample_count: usize) -> bool;

    /// A table with no port connected.
    fn new_ports_raw() -> (r: Self::PortsRaw)
        ensures
            forall|i: int| 0 <= i < Self::port_count() ==> Self::slot(r, i) == 0,
    ;

    /// Connects port `port` to `data`; an index outside the declared ports
    /// changes nothing.
    fn connect_port(port: usize, data: usize, ports_raw: &mut Self::PortsRaw)
        ensures
            port < Self::port_count() ==> Self::slot(*final(ports_raw), port as int) == data,
            forall|i: int|
                0 <= i < Self::port_count() && i != port ==> Self::slot(*final(ports_raw), i)
                    == Self::slot(*old(ports_raw), i),
            port >= Self::port_count() ==> *final(ports_raw) == *old(ports_raw),
    ;

    /// The typed views of every port for a block of `sample_count` samples.
    fn convert_ports(ports_raw: Self::PortsRaw, sample_count: usize) -> (r: Self::Ports)
        ensures
            Self::views(r, ports_raw, sample_count),
    ;
}

} // verus!
