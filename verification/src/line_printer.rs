//! Line assembler: turns raw byte chunks from one direction of one device
//! into clean, timestamped line segments.  It buffers partial lines across
//! chunk boundaries, collapses CR/LF and LF/CR pairs into one terminator
//! (while a doubled identical terminator ends an empty line), wraps long
//! lines at the last space once the buffer reaches the configured width,
//! and stamps every emitted segment with the timestamp captured when that
//! segment began.

use vstd::prelude::*;

verus! {

use crate::chunks::concat_chunks;
use vstd::string::*;

/// Timestamp pair for one captured instant: the long date-time form for the
/// log file and the short clock-only form for the console.
pub struct Stamp {
    pub log: String,
    pub console: String,
}

impl View for Stamp {
    type V = (Seq<char>, Seq<char>);

    open spec fn view(&self) -> (Seq<char>, Seq<char>) {
        (self.log@, self.console@)
    }
}

impl Stamp {
    /// Builds a stamp from its two rendered forms.
    pub fn from_strs(log: &str, console: &str) -> (r: Stamp)
        ensures
            r@ == (log@, console@),
    {
        Stamp { log: log.to_owned(), console: console.to_owned() }
    }

    /// An exact copy.
    pub fn duplicate(&self) -> (r: Stamp)
        ensures
            r@ == self@,
    {
        Stamp { log: self.log.clone(), console: self.console.clone() }
    }
}

/// One segment released by the assembler: the device prefix (nickname plus
/// direction marker), the stamp captured when the segment began, the
/// completion marker (`'|'` for a terminator, `' '` for a forced wrap), and
/// the segment's text.
pub struct Emission {
    pub prefix: String,
    pub stamp: Stamp,
    pub complete: char,
    pub text: String,
}

/// Spec-level core state of the assembler: the pending text and the memory
/// of the last terminator character, if the previous character was one.
pub struct AsmCore {
    pub buf: Seq<char>,
    pub last_term: Option<char>,
}

/// One emitted segment of the core model: its text and completion marker.
pub struct EmitCore {
    pub text: Seq<char>,
    pub complete: char,
}

/// A line terminator character.
pub open spec fn is_terminator(c: char) -> bool {
    c == '\r' || c == '\n'
}

/// The largest index holding a space, or -1 when the text has none.
pub open spec fn last_space_idx(buf: Seq<char>) -> int
    decreases buf.len(),
{
    if buf.len() == 0 {
        -1
    } else if buf.last() == ' ' {
        buf.len() - 1
    } else {
        last_space_idx(buf.drop_last())
    }
}

/// What one input character does to the assembler: a terminator that is the
/// second half of a CR/LF or LF/CR pair is absorbed; any other terminator
/// ends the pending line with marker `'|'`; an ordinary character first
/// forces a wrap at the last space (marker `' '`, keeping the space and the
/// tail) when the buffer has reached the width and a wrap point exists at a
/// non-zero offset, and is then appended.
pub open spec fn asm_step(st: AsmCore, c: char, width: nat) -> (AsmCore, Seq<EmitCore>) {
    if is_terminator(c) {
        let absorb = match st.last_term {
            Some(l) => l != c,
            None => false,
        };
        if absorb {
            (AsmCore { buf: st.buf, last_term: Some(c) }, Seq::empty())
        } else {
            (
                AsmCore { buf: Seq::empty(), last_term: Some(c) },
                seq![EmitCore { text: st.buf, complete: '|' }],
            )
        }
    } else {
        let k = last_space_idx(st.buf);
        if st.buf.len() >= width && k > 0 {
            (
                AsmCore { buf: st.buf.skip(k).push(c), last_term: None },
                seq![EmitCore { text: st.buf.take(k), complete: ' ' }],
            )
        } else {
            (AsmCore { buf: st.buf.push(c), last_term: None }, Seq::empty())
        }
    }
}

/// The assembler's state and emissions after feeding the characters of `cs`
/// in order: the left fold of [`asm_step`].
pub open spec fn asm_push(st: AsmCore, cs: Seq<char>, width: nat) -> (AsmCore, Seq<EmitCore>)
    decreases cs.len(),
{
    if cs.len() == 0 {
        (st, Seq::empty())
    } else {
        let (st1, e1) = asm_step(st, cs.first(), width);
        let (st2, e2) = asm_push(st1, cs.drop_first(), width);
        (st2, e1 + e2)
    }
}

/// Feeding `a` then `b` equals feeding `a + b` in one call: same final
/// state, same emissions in the same order.
pub proof fn lemma_asm_push_concat(st: AsmCore, a: Seq<char>, b: Seq<char>, width: nat)
    ensures
        asm_push(st, a + b, width).0 == asm_push(asm_push(st, a, width).0, b, width).0,
        asm_push(st, a + b, width).1 == asm_push(st, a, width).1 + asm_push(
            asm_push(st, a, width).0,
            b,
            width,
        ).1,
    decreases a.len(),
{
    if a.len() == 0 {
        assert(a + b =~= b);
        assert(asm_push(st, a, width).1 + asm_push(st, b, width).1 =~= asm_push(st, b, width).1);
    } else {
        let (st1, e1) = asm_step(st, a.first(), width);
        assert((a + b).first() == a.first());
        assert((a + b).drop_first() =~= a.drop_first() + b);
        lemma_asm_push_concat(st1, a.drop_first(), b, width);
        let ea = asm_push(st1, a.drop_first(), width).1;
        let eb = asm_push(asm_push(st1, a.drop_first(), width).0, b, width).1;
        assert(e1 + (ea + eb) =~= (e1 + ea) + eb);
    }
}

/// Feeding a single character is one step.
pub proof fn lemma_asm_push_one(st: AsmCore, c: char, width: nat)
    ensures
        asm_push(st, seq![c], width).0 == asm_step(st, c, width).0,
        asm_push(st, seq![c], width).1 == asm_step(st, c, width).1,
{
    let cs = seq![c];
    assert(cs.first() == c);
    assert(cs.drop_first() =~= Seq::<char>::empty());
    let st1 = asm_step(st, c, width).0;
    assert(asm_push(st1, Seq::<char>::empty(), width).0 == st1);
    assert(asm_push(st1, Seq::<char>::empty(), width).1 == Seq::<EmitCore>::empty());
    assert(asm_step(st, c, width).1 + Seq::<EmitCore>::empty() =~= asm_step(st, c, width).1);
}

/// Appending one character to the input runs one more step.
pub proof fn lemma_asm_push_snoc(st: AsmCore, cs: Seq<char>, c: char, width: nat)
    ensures
        asm_push(st, cs.push(c), width).0 == asm_step(asm_push(st, cs, width).0, c, width).0,
        asm_push(st, cs.push(c), width).1 == asm_push(st, cs, width).1 + asm_step(
            asm_push(st, cs, width).0,
            c,
            width,
        ).1,
{
    assert(cs.push(c) =~= cs + seq![c]);
    lemma_asm_push_concat(st, cs, seq![c], width);
    lemma_asm_push_one(asm_push(st, cs, width).0, c, width);
}

/// The assembler's state and emissions after feeding each chunk of `chunks`
/// in order through separate calls.
pub open spec fn asm_push_all(st: AsmCore, chunks: Seq<Seq<char>>, width: nat) -> (
    AsmCore,
    Seq<EmitCore>,
)
    decreases chunks.len(),
{
    if chunks.len() == 0 {
        (st, Seq::empty())
    } else {
        let (st1, e1) = asm_push(st, chunks.first(), width);
        let (st2, e2) = asm_push_all(st1, chunks.drop_first(), width);
        (st2, e1 + e2)
    }
}

/// Discharges the recursion of `last_space_idx` over a space-free suffix.
proof fn lemma_last_space_suffix(s: Seq<char>, j: int)
    requires
        0 <= j <= s.len(),
        forall|m: int| j <= m < s.len() ==> s[m] != ' ',
    ensures
        last_space_idx(s) == last_space_idx(s.take(j)),
    decreases s.len() - j,
{
    if j == s.len() {
        assert(s.take(j) =~= s);
    } else {
        assert(s[s.len() - 1] != ' ');
        assert(s.drop_last() =~= s.take(s.len() - 1));
        lemma_last_space_suffix(s.take(s.len() - 1), j);
        assert(s.take(s.len() - 1).take(j) =~= s.take(j));
    }
}

/// Index of the last space in `s`, if it has one.
fn find_last_space(s: &str) -> (r: Option<usize>)
    ensures
        match r {
            Some(k) => k < s@.len() && last_space_idx(s@) == k as int,
            None => last_space_idx(s@) == -1,
        },
{
    let n = s.unicode_len();
    let mut j: usize = n;
    while j > 0
        invariant
            j <= n,
            n == s@.len(),
            forall|m: int| j <= m < s@.len() ==> s@[m] != ' ',
        decreases j,
    {
        let c = s.get_char(j - 1);
        if c == ' ' {
            proof {
                lemma_last_space_suffix(s@, j as int);
                assert(s@.take(j as int).last() == s@[j - 1]);
            }
            return Some(j - 1);
        }
        j = j - 1;
    }
    proof {
        lemma_last_space_suffix(s@, 0);
        assert(s@.take(0) =~= Seq::<char>::empty());
    }
    None
}

/// Relies on `String::push`: appends exactly the one character.
#[verifier::external_body]
pub(crate) fn push_char(s: &mut String, c: char)
    ensures
        final(s)@ == old(s)@.push(c),
{
    s.push(c);
}

/// What `String::from_utf8_lossy` decodes the given bytes to.
pub uninterp spec fn utf8_lossy_of(bytes: Seq<u8>) -> Seq<char>;

/// Relies on `String::from_utf8_lossy`: the decoding depends on the bytes
/// alone, and no bytes decode to no characters.
#[verifier::external_body]
fn utf8_lossy(bytes: &[u8]) -> (s: String)
    ensures
        s@ == utf8_lossy_of(bytes@),
        bytes@.len() == 0 ==> s@.len() == 0,
{
    String::from_utf8_lossy(bytes).into_owned()
}

/// How a list of emitted [`Emission`] records realises a list of core
/// emissions: same texts and markers in order, all carrying the assembler's
/// prefix; the first one carries the stamp of the line that was already in
/// progress, every later one the stamp of the current call.
pub open spec fn emissions_match(
    es: Seq<Emission>,
    ms: Seq<EmitCore>,
    prefix: Seq<char>,
    first_stamp: (Seq<char>, Seq<char>),
    later_stamp: (Seq<char>, Seq<char>),
) -> bool {
    &&& es.len() == ms.len()
    &&& forall|j: int|
        0 <= j < ms.len() ==> {
            let e = #[trigger] es[j];
            &&& e.text@ == ms[j].text
            &&& e.complete == ms[j].complete
            &&& e.prefix@ == prefix
            &&& e.stamp@ == if j == 0 {
                first_stamp
            } else {
                later_stamp
            }
        }
}

/// Auto-recovery hook: when an emitted segment contains `phrase`, the fixed
/// `response` bytes are to be queued onto the device's outbound queue.
pub struct TriggerHook {
    pub phrase: String,
    pub response: Vec<u8>,
}

impl TriggerHook {
    /// A copy with the same phrase and response bytes.
    pub fn duplicate(&self) -> (r: TriggerHook)
        ensures
            r.phrase@ == self.phrase@,
            r.response@ == self.response@,
    {
        TriggerHook {
            phrase: self.phrase.clone(),
            response: vstd::slice::slice_to_vec(self.response.as_slice()),
        }
    }
}

/// Per-direction line assembler of one device.
pub struct LinePrinter {
    prefix: String,
    line_width: usize,
    buffer: String,
    last_char: Option<char>,
    stamp: Stamp,
    trigger: Option<TriggerHook>,
}

impl LinePrinter {
    /// The pending-line core that the contracts speak of.
    pub closed spec fn model(&self) -> AsmCore {
        AsmCore { buf: self.buffer@, last_term: self.last_char }
    }

    /// The configured wrap width, in characters.
    pub closed spec fn width(&self) -> nat {
        self.line_width as nat
    }

    /// The prefix put on every emission.
    pub closed spec fn prefix_view(&self) -> Seq<char> {
        self.prefix@
    }

    /// The stamp of the line currently in progress.
    pub closed spec fn stamp_view(&self) -> (Seq<char>, Seq<char>) {
        self.stamp@
    }

    /// The configured trigger hook, as phrase and response bytes.
    pub closed spec fn trigger_view(&self) -> Option<(Seq<char>, Seq<u8>)> {
        match self.trigger {
            Some(t) => Some((t.phrase@, t.response@)),
            None => None,
        }
    }

    /// A fresh assembler: empty buffer, no terminator memory.
    pub fn new(prefix: String, line_width: usize, stamp: Stamp, trigger: Option<TriggerHook>) -> (r:
        LinePrinter)
        ensures
            r.model() == (AsmCore { buf: Seq::<char>::empty(), last_term: None::<char> }),
            r.width() == line_width as nat,
            r.prefix_view() == prefix@,
            r.stamp_view() == stamp@,
            r.trigger_view() == (match trigger {
                Some(t) => Some((t.phrase@, t.response@)),
                None => None::<(Seq<char>, Seq<u8>)>,
            }),
    {
        LinePrinter {
            prefix,
            line_width,
            buffer: String::new(),
            last_char: None,
            stamp,
            trigger,
        }
    }

    /// Feeds a chunk of text captured at instant `now` through the
    /// assembler and returns the segments it releases, in order.  The state
    /// moves exactly along [`asm_push`]; each released segment carries the
    /// stamp of the instant its line began, and the line left in progress
    /// keeps its stamp unless a segment was released during this call.
    pub fn push_str(&mut self, lines: &str, now: &Stamp) -> (emitted: Vec<Emission>)
        ensures
            final(self).width() == old(self).width(),
            final(self).prefix_view() == old(self).prefix_view(),
            final(self).trigger_view() == old(self).trigger_view(),
            final(self).model() == asm_push(old(self).model(), lines@, old(self).width()).0,
            emissions_match(
                emitted@,
                asm_push(old(self).model(), lines@, old(self).width()).1,
                old(self).prefix_view(),
                old(self).stamp_view(),
                now@,
            ),
            final(self).stamp_view() == (if asm_push(
                old(self).model(),
                lines@,
                old(self).width(),
            ).1.len() > 0 {
                now@
            } else {
                old(self).stamp_view()
            }),
    {
        let n = lines.unicode_len();
        let mut emitted: Vec<Emission> = Vec::new();
        let mut i: usize = 0;
        while i < n
            invariant
                i <= n,
                n == lines@.len(),
                self.width() == old(self).width(),
                self.prefix_view() == old(self).prefix_view(),
                self.trigger_view() == old(self).trigger_view(),
                self.model() == asm_push(
                    old(self).model(),
                    lines@.take(i as int),
                    old(self).width(),
                ).0,
                emissions_match(
                    emitted@,
                    asm_push(old(self).model(), lines@.take(i as int), old(self).width()).1,
                    old(self).prefix_view(),
                    old(self).stamp_view(),
                    now@,
                ),
                self.stamp_view() == (if asm_push(
                    old(self).model(),
                    lines@.take(i as int),
                    old(self).width(),
                ).1.len() > 0 {
                    now@
                } else {
                    old(self).stamp_view()
                }),
            decreases n - i,
        {
            let ghost pre = *self;
            let ghost ems_pre = asm_push(
                old(self).model(),
                lines@.take(i as int),
                old(self).width(),
            ).1;
            let c = lines.get_char(i);
            if c == '\r' || c == '\n' {
                let absorb = match self.last_char {
                    Some(l) => l != c,
                    None => false,
                };
                self.last_char = Some(c);
                if !absorb {
                    let text = self.buffer.clone();
                    self.buffer = String::new();
                    let em = Emission {
                        prefix: self.prefix.clone(),
                        stamp: self.stamp.duplicate(),
                        complete: '|',
                        text,
                    };
                    self.stamp = now.duplicate();
                    emitted.push(em);
                }
            } else {
                if self.buffer.as_str().unicode_len() >= self.line_width {
                    let k_opt = find_last_space(self.buffer.as_str());
                    if let Some(k) = k_opt {
                        if k > 0 {
                            let blen = self.buffer.as_str().unicode_len();
                            let text = self.buffer.as_str().substring_char(0, k).to_owned();
                            let rest = self.buffer.as_str().substring_char(k, blen).to_owned();
                            self.buffer = rest;
                            let em = Emission {
                                prefix: self.prefix.clone(),
                                stamp: self.stamp.duplicate(),
                                complete: ' ',
                                text,
                            };
                            self.stamp = now.duplicate();
                            emitted.push(em);
                            self.last_char = None;
                            proof {
                                assert(self.buffer@ =~= pre.buffer@.skip(
                                    last_space_idx(pre.buffer@),
                                ));
                            }
                        }
                    }
                }
                push_char(&mut self.buffer, c);
                self.last_char = None;
            }
            proof {
                lemma_asm_push_snoc(old(self).model(), lines@.take(i as int), c, old(self).width());
                assert(lines@.take(i as int + 1) =~= lines@.take(i as int).push(c));
                let stepped = asm_step(pre.model(), c, old(self).width());
                assert(self.model() == stepped.0);
                assert(emissions_match(
                    emitted@,
                    ems_pre + stepped.1,
                    old(self).prefix_view(),
                    old(self).stamp_view(),
                    now@,
                ));
            }
            i += 1;
        }
        proof {
            assert(lines@.take(n as int) =~= lines@);
        }
        emitted
    }

    /// Decodes the bytes as lossy UTF-8 and feeds the characters through
    /// the assembler, as [`push_str`](Self::push_str) does.
    pub fn push_bytes(&mut self, buffer: &[u8], now: &Stamp) -> (emitted: Vec<Emission>)
        ensures
            final(self).width() == old(self).width(),
            final(self).prefix_view() == old(self).prefix_view(),
            final(self).trigger_view() == old(self).trigger_view(),
            final(self).model() == asm_push(
                old(self).model(),
                utf8_lossy_of(buffer@),
                old(self).width(),
            ).0,
            emissions_match(
                emitted@,
                asm_push(old(self).model(), utf8_lossy_of(buffer@), old(self).width()).1,
                old(self).prefix_view(),
                old(self).stamp_view(),
                now@,
            ),
            final(self).stamp_view() == (if asm_push(
                old(self).model(),
                utf8_lossy_of(buffer@),
                old(self).width(),
            ).1.len() > 0 {
                now@
            } else {
                old(self).stamp_view()
            }),
    {
        let s = utf8_lossy(buffer);
        self.push_str(s.as_str(), now)
    }
}

/// Renders one emission as a single line: prefix, stamp, completion marker
/// and text, separated by single spaces.
fn render_line(prefix: &String, stamp_text: &String, complete: char, text: &String) -> (line:
    String)
    ensures
        line@ == prefix@ + seq![' '] + stamp_text@ + seq![' '] + seq![complete] + seq![' ']
            + text@,
{
    let mut line = prefix.clone();
    line.append(" ");
    line.append(stamp_text.as_str());
    line.append(" ");
    push_char(&mut line, complete);
    line.append(" ");
    line.append(text.as_str());
    proof {
        reveal_strlit(" ");
        assert(" "@ =~= seq![' ']);
        assert(line@ =~= prefix@ + seq![' '] + stamp_text@ + seq![' '] + seq![complete] + seq![' ']
            + text@);
    }
    line
}

/// The form an emission takes on the log channel:
/// `<prefix> <stamp> <marker> <text>` with the long date-time stamp.
pub fn format_log_line(e: &Emission) -> (line: String)
    ensures
        line@ == e.prefix@ + seq![' '] + e.stamp.log@ + seq![' '] + seq![e.complete] + seq![' ']
            + e.text@,
{
    render_line(&e.prefix, &e.stamp.log, e.complete, &e.text)
}

/// The form an emission takes on the terminal:
/// `<prefix> <stamp> <marker> <text>` with the short clock-only stamp.
pub fn format_console_line(e: &Emission) -> (line: String)
    ensures
        line@ == e.prefix@ + seq![' '] + e.stamp.console@ + seq![' '] + seq![e.complete] + seq![' ']
            + e.text@,
{
    render_line(&e.prefix, &e.stamp.console, e.complete, &e.text)
}

/// `needle` occurs contiguously in `hay`.
pub open spec fn contains_seq(hay: Seq<char>, needle: Seq<char>) -> bool {
    exists|i: int|
        0 <= i && i + needle.len() <= hay.len() && #[trigger] hay.subrange(i, i + needle.len())
            == needle
}

/// Whether `needle` occurs contiguously in `hay`, by scan.
pub fn str_contains(hay: &str, needle: &str) -> (r: bool)
    ensures
        r == contains_seq(hay@, needle@),
{
    let hl = hay.unicode_len();
    let nl = needle.unicode_len();
    if nl > hl {
        return false;
    }
    if nl == 0 {
        proof {
            assert(hay@.subrange(0, 0 + needle@.len() as int) =~= needle@);
        }
        return true;
    }
    let mut i: usize = 0;
    while i <= hl - nl
        invariant
            1 <= nl <= hl,
            hl == hay@.len(),
            nl == needle@.len(),
            i <= hl - nl + 1,
            forall|p: int|
                0 <= p < i ==> #[trigger] hay@.subrange(p, p + needle@.len() as int) != needle@,
        decreases hl - nl - i + 1,
    {
        let mut j: usize = 0;
        let mut all_eq = true;
        while all_eq && j < nl
            invariant
                nl <= hl,
                hl == hay@.len(),
                nl == needle@.len(),
                i + nl <= hl,
                j <= nl,
                all_eq ==> forall|q: int| 0 <= q < j ==> hay@[i + q] == needle@[q],
                !all_eq ==> hay@.subrange(i as int, i as int + nl as int) != needle@,
            decreases (if all_eq { 1int } else { 0int }), nl - j,
        {
            if hay.get_char(i + j) == needle.get_char(j) {
                j = j + 1;
            } else {
                proof {
                    assert(hay@.subrange(i as int, i as int + nl as int)[j as int] == hay@[i + j]);
                }
                all_eq = false;
            }
        }
        if all_eq {
            proof {
                assert(hay@.subrange(i as int, i as int + nl as int) =~= needle@);
            }
            return true;
        }
        i = i + 1;
    }
    false
}

impl LinePrinter {
    /// The auto-recovery hook: the configured response bytes, exactly when a
    /// trigger phrase is configured and some emitted segment contains it.
    /// The caller queues them onto the device's outbound byte queue.
    pub fn trigger_response(&self, emitted: &Vec<Emission>) -> (r: Option<Vec<u8>>)
        ensures
            (match self.trigger_view() {
                None => r is None,
                Some(t) => {
                    &&& (r is Some <==> exists|j: int|
                        0 <= j < emitted@.len() && contains_seq((#[trigger] emitted@[j]).text@, t.0))
                    &&& (match r {
                        Some(b) => b@ == t.1,
                        None => true,
                    })
                },
            }),
    {
        match &self.trigger {
            None => None,
            Some(hook) => {
                let mut j: usize = 0;
                while j < emitted.len()
                    invariant
                        j <= emitted@.len(),
                        self.trigger_view() == Some((hook.phrase@, hook.response@)),
                        forall|q: int|
                            0 <= q < j ==> !contains_seq(
                                (#[trigger] emitted@[q]).text@,
                                hook.phrase@,
                            ),
                    decreases emitted@.len() - j,
                {
                    if str_contains(emitted[j].text.as_str(), hook.phrase.as_str()) {
                        return Some(vstd::slice::slice_to_vec(hook.response.as_slice()));
                    }
                    j = j + 1;
                }
                None
            },
        }
    }
}

/// Line assembly is idempotent under chunking: feeding a text in one call
/// and feeding it split arbitrarily across many calls yield the same final
/// state and the same sequence of emitted (text, completion-marker) pairs,
/// for a fixed width.
pub proof fn lemma_assembly_chunking(st: AsmCore, chunks: Seq<Seq<char>>, width: nat)
    ensures
        asm_push_all(st, chunks, width).0 == asm_push(st, concat_chunks(chunks), width).0,
        asm_push_all(st, chunks, width).1 == asm_push(st, concat_chunks(chunks), width).1,
    decreases chunks.len(),
{
    if chunks.len() == 0 {
        assert(asm_push(st, concat_chunks(chunks), width).0 == st);
    } else {
        let (st1, e1) = asm_push(st, chunks.first(), width);
        lemma_assembly_chunking(st1, chunks.drop_first(), width);
        lemma_asm_push_concat(st, chunks.first(), concat_chunks(chunks.drop_first()), width);
    }
}

} // verus!
