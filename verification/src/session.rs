//! The session's data-flow core, single-writer by construction: one
//! [`DeviceState`] per configured device (outbound byte queue plus one line
//! assembler per direction), and the [`Session`] that the console loop
//! drives — routing each operator line to the currently selected device and
//! switching the selection on the dedicated switch event.  The loops around
//! it (terminal input, serial I/O, log file) live outside the library and
//! only call these decision functions.

use vstd::prelude::*;

verus! {

use crate::config::ProcessorInfo;
use crate::line_printer::asm_push;
use crate::line_printer::contains_seq;
use crate::line_printer::emissions_match;
use crate::line_printer::push_char;
use crate::line_printer::utf8_lossy_of;
use crate::line_printer::AsmCore;
use crate::line_printer::Emission;
use crate::line_printer::LinePrinter;
use crate::line_printer::Stamp;
use crate::line_printer::TriggerHook;
use crate::ring_queue::ring_buf_queue;
use crate::ring_queue::RingBufQueue;
use crate::user_io::RaisedError;
use vstd::string::*;
use vstd::utf8::encode_utf8;

/// Everything the session wires up for one device: its configuration, the
/// outbound byte queue, and one line assembler per direction.
pub struct DeviceState {
    pub info: ProcessorInfo,
    pub queue: RingBufQueue,
    pub read_printer: LinePrinter,
    pub write_printer: LinePrinter,
}

/// One device's configuration entry together with its optional
/// auto-recovery hook.
pub struct DeviceSetup {
    pub info: ProcessorInfo,
    pub trigger: Option<TriggerHook>,
}

/// How one submitted operator line changes a device: the line plus a
/// carriage return is encoded onto the outbound queue and fed through the
/// write-side assembler; nothing else moves.
pub open spec fn submit_line_rel(
    pre: DeviceState,
    post: DeviceState,
    emitted: Seq<Emission>,
    line: Seq<char>,
    now: (Seq<char>, Seq<char>),
) -> bool {
    let full = line.push('\r');
    let step = asm_push(pre.write_printer.model(), full, pre.write_printer.width());
    &&& post.info == pre.info
    &&& post.read_printer == pre.read_printer
    &&& post.queue@ == pre.queue@ + encode_utf8(full)
    &&& post.queue.capacity() == pre.queue.capacity()
    &&& post.write_printer.model() == step.0
    &&& post.write_printer.width() == pre.write_printer.width()
    &&& post.write_printer.prefix_view() == pre.write_printer.prefix_view()
    &&& post.write_printer.trigger_view() == pre.write_printer.trigger_view()
    &&& emissions_match(
        emitted,
        step.1,
        pre.write_printer.prefix_view(),
        pre.write_printer.stamp_view(),
        now,
    )
    &&& post.write_printer.stamp_view() == (if step.1.len() > 0 {
        now
    } else {
        pre.write_printer.stamp_view()
    })
}

/// How one chunk of device output changes a device: the bytes are decoded
/// and fed through the read-side assembler, and when a configured trigger
/// phrase appears in an emitted segment the fixed response bytes go onto
/// the outbound queue; nothing else moves.
pub open spec fn feed_read_rel(
    pre: DeviceState,
    post: DeviceState,
    emitted: Seq<Emission>,
    bytes: Seq<u8>,
    now: (Seq<char>, Seq<char>),
) -> bool {
    let step = asm_push(pre.read_printer.model(), utf8_lossy_of(bytes), pre.read_printer.width());
    &&& post.info == pre.info
    &&& post.write_printer == pre.write_printer
    &&& post.read_printer.model() == step.0
    &&& post.read_printer.width() == pre.read_printer.width()
    &&& post.read_printer.prefix_view() == pre.read_printer.prefix_view()
    &&& post.read_printer.trigger_view() == pre.read_printer.trigger_view()
    &&& emissions_match(
        emitted,
        step.1,
        pre.read_printer.prefix_view(),
        pre.read_printer.stamp_view(),
        now,
    )
    &&& post.read_printer.stamp_view() == (if step.1.len() > 0 {
        now
    } else {
        pre.read_printer.stamp_view()
    })
    &&& post.queue.capacity() == pre.queue.capacity()
    &&& (match pre.read_printer.trigger_view() {
        None => post.queue@ == pre.queue@,
        Some(pair) => {
            if exists|j: int|
                0 <= j < emitted.len() && contains_seq((#[trigger] emitted[j]).text@, pair.0) {
                post.queue@ == pre.queue@ + pair.1
            } else {
                post.queue@ == pre.queue@
            }
        },
    })
}

impl DeviceState {
    /// Structural invariant: the queue is well-formed and each assembler's
    /// prefix is the nickname followed by its direction marker.
    pub open spec fn wf(&self) -> bool {
        &&& self.queue.wf()
        &&& self.read_printer.prefix_view() == self.info.processor_name@ + seq![' ', 'r']
        &&& self.write_printer.prefix_view() == self.info.processor_name@ + seq![' ', 'w']
    }

    /// Wires one device: an empty outbound queue of the given capacity and
    /// a fresh assembler per direction at `line_width`, stamped `stamp`.
    /// The optional trigger hook watches the device's output.
    pub fn new(
        info: ProcessorInfo,
        capacity: usize,
        line_width: usize,
        stamp: &Stamp,
        trigger: Option<TriggerHook>,
    ) -> (d: DeviceState)
        requires
            1 <= capacity < usize::MAX,
        ensures
            d.wf(),
            d.info == info,
            d.queue@ == Seq::<u8>::empty(),
            d.queue.capacity() == capacity,
            d.read_printer.model() == (AsmCore {
                buf: Seq::<char>::empty(),
                last_term: None::<char>,
            }),
            d.write_printer.model() == (AsmCore {
                buf: Seq::<char>::empty(),
                last_term: None::<char>,
            }),
            d.read_printer.width() == line_width as nat,
            d.write_printer.width() == line_width as nat,
            d.read_printer.stamp_view() == stamp@,
            d.write_printer.stamp_view() == stamp@,
            d.read_printer.trigger_view() == (match trigger {
                Some(t) => Some((t.phrase@, t.response@)),
                None => None::<(Seq<char>, Seq<u8>)>,
            }),
            d.write_printer.trigger_view() is None,
    {
        let mut rp_prefix = info.processor_name.clone();
        rp_prefix.append(" r");
        let mut wp_prefix = info.processor_name.clone();
        wp_prefix.append(" w");
        proof {
            reveal_strlit(" r");
            reveal_strlit(" w");
            assert(" r"@ =~= seq![' ', 'r']);
            assert(" w"@ =~= seq![' ', 'w']);
        }
        DeviceState {
            queue: ring_buf_queue(capacity),
            read_printer: LinePrinter::new(rp_prefix, line_width, stamp.duplicate(), trigger),
            write_printer: LinePrinter::new(wp_prefix, line_width, stamp.duplicate(), None),
            info,
        }
    }

    /// Device output arrived: decode it, assemble line segments, and queue
    /// the auto-recovery response if a trigger phrase appeared.
    pub fn feed_read_bytes(&mut self, bytes: &[u8], now: &Stamp) -> (emitted: Vec<Emission>)
        requires
            old(self).wf(),
        ensures
            final(self).wf(),
            feed_read_rel(*old(self), *final(self), emitted@, bytes@, now@),
    {
        let emitted = self.read_printer.push_bytes(bytes, now);
        let response = self.read_printer.trigger_response(&emitted);
        match response {
            Some(resp) => {
                self.queue.push(resp.as_slice());
            },
            None => {},
        }
        emitted
    }

    /// Operator input for this device: append the carriage return, queue
    /// the encoded bytes for the wire, and feed the same text through the
    /// write-side assembler so the keystrokes are echoed and logged like
    /// device output.
    pub fn submit_line(&mut self, line: &str, now: &Stamp) -> (emitted: Vec<Emission>)
        requires
            old(self).wf(),
        ensures
            final(self).wf(),
            submit_line_rel(*old(self), *final(self), emitted@, line@, now@),
    {
        let mut full = line.to_owned();
        push_char(&mut full, '\r');
        proof {
            assert(full@ =~= line@.push('\r'));
        }
        self.queue.push(full.as_str().as_bytes());
        let emitted = self.write_printer.push_str(full.as_str(), now);
        emitted
    }

    /// Removes and hands out the oldest bytes waiting for the wire; empty
    /// exactly when nothing waits.  Never blocks.
    pub fn take_outbound(&mut self) -> (bytes: Vec<u8>)
        requires
            old(self).wf(),
        ensures
            final(self).wf(),
            final(self).info == old(self).info,
            final(self).read_printer == old(self).read_printer,
            final(self).write_printer == old(self).write_printer,
            final(self).queue.capacity() == old(self).queue.capacity(),
            old(self).queue@ == bytes@ + final(self).queue@,
            bytes@.len() > 0 <==> old(self).queue@.len() > 0,
    {
        self.queue.pop()
    }
}

/// What the console loop read from the operator: a line for the selected
/// device, the switch-selection event, or end of input.
pub enum ReadLineRes {
    Line(String),
    NextProcessor,
    Exit,
}

/// The console-facing core of a running session: the wired devices and the
/// index of the currently selected one.
pub struct Session {
    pub devices: Vec<DeviceState>,
    pub selected: usize,
}

impl Session {
    /// Structural invariant: at least one device, a valid selection, and
    /// every device well-formed.
    pub open spec fn wf(&self) -> bool {
        &&& self.devices@.len() > 0
        &&& (self.selected as int) < self.devices@.len()
        &&& forall|i: int| 0 <= i < self.devices@.len() ==> (#[trigger] self.devices@[i]).wf()
    }

    /// Wires one device per configured entry, in order, and selects the
    /// first.  Fails exactly when no device is configured: a session
    /// without devices is unusable.
    pub fn new(setups: &Vec<DeviceSetup>, capacity: usize, line_width: usize, stamp: &Stamp) -> (r:
        Result<Session, RaisedError>)
        requires
            1 <= capacity < usize::MAX,
        ensures
            r is Ok <==> setups@.len() > 0,
            (match r {
                Ok(s) => {
                    &&& s.wf()
                    &&& s.selected == 0
                    &&& s.devices@.len() == setups@.len()
                    &&& forall|i: int|
                        0 <= i < setups@.len() ==> {
                            let d = #[trigger] s.devices@[i];
                            &&& d.info == setups@[i].info
                            &&& d.queue@ == Seq::<u8>::empty()
                            &&& d.queue.capacity() == capacity
                            &&& d.read_printer.model() == (AsmCore {
                                buf: Seq::<char>::empty(),
                                last_term: None::<char>,
                            })
                            &&& d.write_printer.model() == (AsmCore {
                                buf: Seq::<char>::empty(),
                                last_term: None::<char>,
                            })
                            &&& d.read_printer.width() == line_width as nat
                            &&& d.write_printer.width() == line_width as nat
                            &&& d.read_printer.stamp_view() == stamp@
                            &&& d.write_printer.stamp_view() == stamp@
                            &&& d.read_printer.trigger_view() == (match setups@[i].trigger {
                                Some(t) => Some((t.phrase@, t.response@)),
                                None => None::<(Seq<char>, Seq<u8>)>,
                            })
                        }
                },
                Err(e) => e@ == "no processors configured"@,
            }),
    {
        if setups.len() == 0 {
            return Err(RaisedError::new("no processors configured"));
        }
        let mut devices: Vec<DeviceState> = Vec::new();
        let mut i: usize = 0;
        while i < setups.len()
            invariant
                1 <= capacity < usize::MAX,
                i <= setups@.len(),
                devices@.len() == i as int,
                forall|m: int|
                    0 <= m < i as int ==> {
                        let d = #[trigger] devices@[m];
                        &&& d.wf()
                        &&& d.info == setups@[m].info
                        &&& d.queue@ == Seq::<u8>::empty()
                        &&& d.queue.capacity() == capacity
                        &&& d.read_printer.model() == (AsmCore {
                            buf: Seq::<char>::empty(),
                            last_term: None::<char>,
                        })
                        &&& d.write_printer.model() == (AsmCore {
                            buf: Seq::<char>::empty(),
                            last_term: None::<char>,
                        })
                        &&& d.read_printer.width() == line_width as nat
                        &&& d.write_printer.width() == line_width as nat
                        &&& d.read_printer.stamp_view() == stamp@
                        &&& d.write_printer.stamp_view() == stamp@
                        &&& d.read_printer.trigger_view() == (match setups@[m].trigger {
                            Some(t) => Some((t.phrase@, t.response@)),
                            None => None::<(Seq<char>, Seq<u8>)>,
                        })
                    },
            decreases setups@.len() - i,
        {
            let setup = &setups[i];
            let trigger = match &setup.trigger {
                Some(t) => Some(t.duplicate()),
                None => None,
            };
            devices.push(DeviceState::new(setup.info.duplicate(), capacity, line_width, stamp, trigger));
            i = i + 1;
        }
        Ok(Session { devices, selected: 0 })
    }

    /// Advances the selection to the next device, wrapping around.  The
    /// devices themselves do not move.
    pub fn switch_next(&mut self)
        requires
            old(self).wf(),
        ensures
            final(self).wf(),
            final(self).devices == old(self).devices,
            final(self).selected as int == (old(self).selected as int + 1) % (
            old(self).devices@.len() as int),
    {
        let n = self.devices.len();
        self.selected = (self.selected + 1) % n;
    }

    /// Routes one operator line to the currently selected device.
    pub fn submit_selected(&mut self, line: &str, now: &Stamp) -> (emitted: Vec<Emission>)
        requires
            old(self).wf(),
        ensures
            final(self).wf(),
            final(self).selected == old(self).selected,
            final(self).devices@.len() == old(self).devices@.len(),
            forall|i: int|
                0 <= i < old(self).devices@.len() && i != old(self).selected as int
                    ==> final(self).devices@[i] == old(self).devices@[i],
            submit_line_rel(
                old(self).devices@[old(self).selected as int],
                final(self).devices@[old(self).selected as int],
                emitted@,
                line@,
                now@,
            ),
    {
        let idx = self.selected;
        let device = &mut self.devices[idx];
        device.submit_line(line, now)
    }

    /// Feeds one chunk of output from device `device_idx` through its
    /// read-side assembler.
    pub fn feed_device(&mut self, device_idx: usize, bytes: &[u8], now: &Stamp) -> (emitted: Vec<
        Emission,
    >)
        requires
            old(self).wf(),
            device_idx < old(self).devices@.len(),
        ensures
            final(self).wf(),
            final(self).selected == old(self).selected,
            final(self).devices@.len() == old(self).devices@.len(),
            forall|i: int|
                0 <= i < old(self).devices@.len() && i != device_idx as int
                    ==> final(self).devices@[i] == old(self).devices@[i],
            feed_read_rel(
                old(self).devices@[device_idx as int],
                final(self).devices@[device_idx as int],
                emitted@,
                bytes@,
                now@,
            ),
    {
        let device = &mut self.devices[device_idx];
        device.feed_read_bytes(bytes, now)
    }

    /// The console loop's decision for one operator event: a line goes to
    /// the selected device and the loop keeps running; the switch event
    /// advances the selection; end of input stops the loop.  The boolean
    /// says whether to keep running.
    pub fn handle_console(&mut self, event: &ReadLineRes, now: &Stamp) -> (r: (bool, Vec<Emission>))
        requires
            old(self).wf(),
        ensures
            final(self).wf(),
            (match event {
                ReadLineRes::Line(s) => {
                    &&& r.0
                    &&& final(self).selected == old(self).selected
                    &&& final(self).devices@.len() == old(self).devices@.len()
                    &&& forall|i: int|
                        0 <= i < old(self).devices@.len() && i != old(self).selected as int
                            ==> final(self).devices@[i] == old(self).devices@[i]
                    &&& submit_line_rel(
                        old(self).devices@[old(self).selected as int],
                        final(self).devices@[old(self).selected as int],
                        r.1@,
                        s@,
                        now@,
                    )
                },
                ReadLineRes::NextProcessor => {
                    &&& r.0
                    &&& final(self).devices == old(self).devices
                    &&& final(self).selected as int == (old(self).selected as int + 1) % (
                    old(self).devices@.len() as int)
                    &&& r.1@.len() == 0
                },
                ReadLineRes::Exit => {
                    &&& !r.0
                    &&& *final(self) == *old(self)
                    &&& r.1@.len() == 0
                },
            }),
    {
        match event {
            ReadLineRes::Line(s) => {
                let emitted = self.submit_selected(s.as_str(), now);
                (true, emitted)
            },
            ReadLineRes::NextProcessor => {
                self.switch_next();
                (true, Vec::new())
            },
            ReadLineRes::Exit => (false, Vec::new()),
        }
    }
}

} // verus!
