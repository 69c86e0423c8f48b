//! The clipboard bridge: delayed rendering and file transfer helpers.
//!
//! Formats are announced to the portal without data; when a local paste
//! raises a transfer request, the bridge serves it from the queued entry for
//! that MIME type, or signals failure.  File lists arrive as `file://` URI
//! lists whose paths are percent-encoded; received files are written under a
//! sanitised name, with a numbered suffix on collision.

use vstd::prelude::*;
use vstd::string::StrSliceExecFns;
use vstd::string::StringExecFns;

verus! {

/// The value of a hexadecimal digit, upper or lower case.
pub open spec fn spec_hex_val(c: char) -> Option<int> {
    if '0' <= c <= '9' {
        Some(c as u32 - '0' as u32)
    } else if 'a' <= c <= 'f' {
        Some(10 + c as u32 - 'a' as u32)
    } else if 'A' <= c <= 'F' {
        Some(10 + c as u32 - 'A' as u32)
    } else {
        None
    }
}

/// The upper-case hexadecimal digit of a value below 16.
pub open spec fn spec_hex_char(n: int) -> char {
    if n < 10 {
        (48 + n) as u8 as char
    } else {
        (65 + (n - 10)) as u8 as char
    }
}

/// Percent-decoding of a path: `%` followed by two hexadecimal digits
/// becomes the byte they name; a `%` not followed by two hexadecimal digits
/// is kept verbatim together with what follows it; every other character is
/// copied.
pub open spec fn spec_percent_decode(s: Seq<char>) -> Seq<char>
    decreases s.len(),
{
    if s.len() == 0 {
        Seq::empty()
    } else if s[0] == '%' {
        if s.len() >= 3 && spec_hex_val(s[1]) is Some && spec_hex_val(s[2]) is Some {
            seq![
                ((spec_hex_val(s[1])->0 * 16 + spec_hex_val(s[2])->0) as u8) as char,
            ] + spec_percent_decode(s.skip(3))
        } else if s.len() >= 3 {
            seq![s[0], s[1], s[2]] + spec_percent_decode(s.skip(3))
        } else {
            s
        }
    } else {
        seq![s[0]] + spec_percent_decode(s.skip(1))
    }
}

/// A character that percent-encoding passes through unchanged: anything but
/// `%` and the ASCII characters outside the unreserved path set.
pub open spec fn spec_passes_encoding(c: char) -> bool {
    if c == '%' {
        false
    } else if c as u32 >= 128 {
        true
    } else {
        ('0' <= c <= '9') || ('a' <= c <= 'z') || ('A' <= c <= 'Z') || c == '-' || c == '_' || c
            == '.' || c == '~' || c == '/'
    }
}

/// The encoding of one character: passed through, or `%` and two upper-case
/// hexadecimal digits of its ASCII value.
pub open spec fn spec_encode_char(c: char) -> Seq<char> {
    if spec_passes_encoding(c) {
        seq![c]
    } else {
        seq![
            '%',
            spec_hex_char((c as u32) as int / 16),
            spec_hex_char((c as u32) as int % 16),
        ]
    }
}

/// Percent-encoding of a path: ASCII characters outside the unreserved path
/// set become `%` escapes; everything else passes through.
pub open spec fn spec_percent_encode(s: Seq<char>) -> Seq<char>
    decreases s.len(),
{
    if s.len() == 0 {
        Seq::empty()
    } else {
        spec_encode_char(s[0]) + spec_percent_encode(s.drop_first())
    }
}

/// The value of a hexadecimal digit character, if it is one.
fn hex_val(c: char) -> (r: Option<u8>)
    ensures
        r is Some <==> spec_hex_val(c) is Some,
        r is Some ==> r->0 == spec_hex_val(c)->0,
{
    if '0' <= c && c <= '9' {
        Some((c as u32 - '0' as u32) as u8)
    } else if 'a' <= c && c <= 'f' {
        Some((10 + (c as u32 - 'a' as u32)) as u8)
    } else if 'A' <= c && c <= 'F' {
        Some((10 + (c as u32 - 'A' as u32)) as u8)
    } else {
        None
    }
}

/// The upper-case hexadecimal digit of a value below 16.
fn hex_char(n: u8) -> (r: char)
    requires
        n < 16,
    ensures
        r == spec_hex_char(n as int),
{
    if n < 10 {
        (48 + n) as char
    } else {
        (65 + (n - 10)) as char
    }
}

/// Relies on Iterator::collect for String: building a string from a vector
/// of characters yields exactly those characters.
#[verifier::external_body]
fn chars_to_string(v: &Vec<char>) -> (r: String)
    ensures
        r@ == v@,
{
    v.iter().collect()
}

/// Percent-decode the characters of a path.
fn percent_decode_chars(s: &Vec<char>) -> (r: Vec<char>)
    ensures
        r@ == spec_percent_decode(s@),
{
    let mut out: Vec<char> = Vec::new();
    let mut i: usize = 0;
    proof {
        assert(s@.skip(0) =~= s@);
    }
    while i < s.len()
        invariant
            0 <= i <= s@.len(),
            spec_percent_decode(s@) == out@ + spec_percent_decode(s@.skip(i as int)),
        decreases s@.len() - i,
    {
        let ghost rest = s@.skip(i as int);
        proof {
            assert(rest[0] == s@[i as int]);
            if rest.len() >= 2 {
                assert(rest[1] == s@[i as int + 1]);
            }
            if rest.len() >= 3 {
                assert(rest[2] == s@[i as int + 2]);
            }
        }
        let c = s[i];
        let remaining = s.len() - i;
        if c == '%' && remaining >= 3 {
            let h1 = hex_val(s[i + 1]);
            let h2 = hex_val(s[i + 2]);
            match (h1, h2) {
                (Some(v1), Some(v2)) => {
                    out.push((v1 * 16 + v2) as char);
                }
                _ => {
                    out.push('%');
                    out.push(s[i + 1]);
                    out.push(s[i + 2]);
                }
            }
            proof {
                assert(rest.skip(3) =~= s@.skip(i as int + 3));
            }
            i = i + 3;
        } else if c == '%' {
            // A trailing percent with fewer than two characters after it is
            // kept verbatim.
            let ghost prev = out@;
            out.push(c);
            if i + 1 < s.len() {
                out.push(s[i + 1]);
            }
            proof {
                assert(spec_percent_decode(rest) == rest);
                assert(out@ =~= prev + rest);
                assert(s@.skip(s@.len() as int).len() == 0);
            }
            i = s.len();
        } else {
            out.push(c);
            proof {
                assert(rest.skip(1) =~= s@.skip(i as int + 1));
            }
            i = i + 1;
        }
    }
    proof {
        assert(s@.skip(s@.len() as int).len() == 0);
        assert(out@ + spec_percent_decode(s@.skip(s@.len() as int)) =~= out@);
    }
    out
}

/// Percent-decode a path string.
pub fn percent_decode(input: &str) -> (r: String)
    ensures
        r@ == spec_percent_decode(input@),
{
    let chars = str_to_chars(input);
    let decoded = percent_decode_chars(&chars);
    chars_to_string(&decoded)
}

/// Percent-encode a path string.
pub fn percent_encode(input: &str) -> (r: String)
    ensures
        r@ == spec_percent_encode(input@),
{
    let chars = str_to_chars(input);
    let mut out: Vec<char> = Vec::new();
    let mut i: usize = 0;
    proof {
        assert(chars@.skip(0) =~= chars@);
    }
    while i < chars.len()
        invariant
            0 <= i <= chars@.len(),
            spec_percent_encode(chars@) == out@ + spec_percent_encode(chars@.skip(i as int)),
        decreases chars@.len() - i,
    {
        let ghost rest = chars@.skip(i as int);
        proof {
            assert(rest[0] == chars@[i as int]);
            assert(rest.drop_first() =~= chars@.skip(i as int + 1));
        }
        let c = chars[i];
        let passes = c != '%' && (c as u32 >= 128 || ('0' <= c && c <= '9') || ('a' <= c && c
            <= 'z') || ('A' <= c && c <= 'Z') || c == '-' || c == '_' || c == '.' || c == '~' || c
            == '/');
        if passes {
            out.push(c);
        } else {
            let v = (c as u32) as u8;
            out.push('%');
            out.push(hex_char(v / 16));
            out.push(hex_char(v % 16));
            proof {
                assert((c as u32) < 128);
                assert(v as int == (c as u32) as int);
            }
        }
        i = i + 1;
    }
    proof {
        assert(chars@.skip(chars@.len() as int).len() == 0);
        assert(out@ + spec_percent_encode(chars@.skip(chars@.len() as int)) =~= out@);
    }
    chars_to_string(&out)
}

/// The characters of a string, in order.
fn str_to_chars(s: &str) -> (r: Vec<char>)
    ensures
        r@ == s@,
{
    let n = s.unicode_len();
    let mut r: Vec<char> = Vec::new();
    let mut i: usize = 0;
    while i < n
        invariant
            n == s@.len(),
            0 <= i <= n,
            r@ == s@.take(i as int),
        decreases n - i,
    {
        r.push(s.get_char(i));
        proof {
            assert(r@ =~= s@.take(i as int + 1));
        }
        i = i + 1;
    }
    proof {
        assert(s@.take(s@.len() as int) =~= s@);
    }
    r
}

/// A hexadecimal digit produced by `spec_hex_char` reads back as its value.
proof fn lemma_hex_char_val(n: int)
    requires
        0 <= n < 16,
    ensures
        spec_hex_val(spec_hex_char(n)) == Some(n),
{
    if n < 10 {
        assert((48 + n) as u8 as char as u32 == 48 + n);
    } else {
        assert((65 + (n - 10)) as u8 as char as u32 == 65 + (n - 10));
    }
}

/// Decoding inverts encoding: a percent-encoded path decodes to exactly the
/// original path.
pub proof fn lemma_percent_round_trip(s: Seq<char>)
    ensures
        spec_percent_decode(spec_percent_encode(s)) == s,
    decreases s.len(),
{
    if s.len() == 0 {
        assert(spec_percent_decode(spec_percent_encode(s)) =~= s);
    } else {
        let c = s[0];
        let e = spec_percent_encode(s);
        let tail = spec_percent_encode(s.drop_first());
        lemma_percent_round_trip(s.drop_first());
        if spec_passes_encoding(c) {
            assert(e == seq![c] + tail);
            assert(e[0] == c && c != '%');
            assert(e.skip(1) =~= tail);
            assert(spec_percent_decode(e) == seq![c] + spec_percent_decode(tail));
            assert(seq![c] + s.drop_first() =~= s);
        } else {
            let cu = (c as u32) as int;
            let hi = cu / 16;
            let lo = cu % 16;
            assert((c as u32) < 128);
            assert(0 <= cu < 128);
            assert(0 <= cu / 16 < 16 && 0 <= cu % 16 < 16) by (nonlinear_arith)
                requires
                    0 <= cu < 128,
            ;
            lemma_hex_char_val(hi);
            lemma_hex_char_val(lo);
            assert(e == seq!['%', spec_hex_char(hi), spec_hex_char(lo)] + tail);
            assert(e.len() >= 3 && e[0] == '%' && e[1] == spec_hex_char(hi) && e[2]
                == spec_hex_char(lo));
            assert(e.skip(3) =~= tail);
            assert(hi * 16 + lo == cu);
            assert(((hi * 16 + lo) as u8) as char == c) by {
                vstd::utf8::char_u32_cast(c, c as u32);
                assert(((hi * 16 + lo) as u8) as u32 == c as u32);
            }
            assert(spec_percent_decode(e) == seq![c] + spec_percent_decode(tail));
            assert(seq![c] + s.drop_first() =~= s);
        }
    }
}

/// A queued clipboard payload awaiting a transfer request.
#[derive(Debug)]
pub struct PendingEntry {
    /// The MIME type the payload serves.
    pub mime: String,
    /// The payload bytes.
    pub data: Vec<u8>,
    /// When the payload was queued, in milliseconds.
    pub queued_at_ms: u64,
}

/// Whether a queued entry is still fresh at time `now_ms`: no older than 30
/// seconds.
pub open spec fn spec_entry_fresh(e: PendingEntry, now_ms: u64) -> bool {
    now_ms <= e.queued_at_ms || now_ms - e.queued_at_ms <= 30000
}

/// The entries that survive queueing a payload for `mime` at `now_ms`: the
/// fresh ones for other MIME types, in order.
pub open spec fn spec_purged(s: Seq<PendingEntry>, mime: Seq<char>, now_ms: u64) -> Seq<
    PendingEntry,
>
    decreases s.len(),
{
    if s.len() == 0 {
        s
    } else {
        let kept = spec_purged(s.drop_last(), mime, now_ms);
        if s.last().mime@ != mime && spec_entry_fresh(s.last(), now_ms) {
            kept.push(s.last())
        } else {
            kept
        }
    }
}

/// No two queued entries serve the same MIME type.
pub open spec fn spec_mimes_unique(s: Seq<PendingEntry>) -> bool {
    forall|i: int, j: int|
        #![trigger s[i], s[j]]
        0 <= i < j < s.len() ==> s[i].mime@ != s[j].mime@
}

/// What the bridge does with a transfer request.
#[derive(Debug)]
pub enum TransferAction {
    /// Write the queued bytes for the request's serial.
    ProvideData {
        /// The request's serial.
        serial: u32,
        /// The queued bytes.
        data: Vec<u8>,
    },
    /// Signal that no data is available for the request's serial.
    SignalFailure {
        /// The request's serial.
        serial: u32,
    },
}

/// The delayed-rendering core of the portal clipboard: queued payloads by
/// MIME type and the cached file list of the last URI-list read.
pub struct PortalClipboardSink {
    pending: Vec<PendingEntry>,
    cached_files: Vec<String>,
}

impl PortalClipboardSink {
    /// The queued entries, oldest first.
    pub closed spec fn spec_pending(self) -> Seq<PendingEntry> {
        self.pending@
    }

    /// The cached file paths of the last URI-list read.
    pub closed spec fn spec_cached_files(self) -> Seq<String> {
        self.cached_files@
    }

    /// Well-formedness: one queued entry per MIME type.
    pub open spec fn wf(self) -> bool {
        spec_mimes_unique(self.spec_pending())
    }

    /// Create an empty bridge.
    pub fn new() -> (r: PortalClipboardSink)
        ensures
            r.wf(),
            r.spec_pending().len() == 0,
            r.spec_cached_files().len() == 0,
    {
        PortalClipboardSink { pending: Vec::new(), cached_files: Vec::new() }
    }

    /// Whether a format announcement is due: there is nothing to announce
    /// for an empty format list.
    pub fn should_announce(mime_types: &Vec<String>) -> (r: bool)
        ensures
            r == (mime_types@.len() > 0),
    {
        mime_types.len() > 0
    }

    /// Queue a payload for delayed rendering: entries older than 30 seconds
    /// are purged, any previous payload for the same MIME type is replaced,
    /// and the new entry is appended.
    pub fn write_clipboard(&mut self, mime: &str, data: Vec<u8>, now_ms: u64)
        requires
            old(self).wf(),
        ensures
            final(self).wf(),
            final(self).spec_cached_files() == old(self).spec_cached_files(),
            final(self).spec_pending().len() >= 1,
            final(self).spec_pending().last().mime@ == mime@,
            final(self).spec_pending().last().data@ == data@,
            final(self).spec_pending().last().queued_at_ms == now_ms,
            final(self).spec_pending().drop_last() == spec_purged(
                old(self).spec_pending(),
                mime@,
                now_ms,
            ),
    {
        let key = String::from_str(mime);
        let mut kept: Vec<PendingEntry> = Vec::new();
        let ghost orig = self.pending@;
        let n = self.pending.len();
        let mut i: usize = 0;
        proof {
            assert(orig.take(0int) =~= Seq::<PendingEntry>::empty());
            assert(orig.skip(0int) =~= orig);
        }
        while i < n
            invariant
                n == orig.len(),
                orig == old(self).spec_pending(),
                0 <= i <= n,
                self.pending@ == orig.skip(i as int),
                self.cached_files@ == old(self).spec_cached_files(),
                key@ == mime@,
                kept@ == spec_purged(orig.take(i as int), mime@, now_ms),
            decreases n - i,
        {
            proof {
                assert(orig.take(i as int + 1).drop_last() =~= orig.take(i as int));
                assert(orig.take(i as int + 1).last() == orig[i as int]);
                assert(orig.skip(i as int)[0] == orig[i as int]);
                assert(orig.skip(i as int).remove(0) =~= orig.skip(i as int + 1));
            }
            let entry = self.pending.remove(0);
            let fresh = now_ms <= entry.queued_at_ms || now_ms - entry.queued_at_ms <= 30000;
            let different = !(entry.mime == key);
            if different && fresh {
                kept.push(entry);
            }
            i = i + 1;
        }
        proof {
            assert(orig.take(n as int) =~= orig);
            lemma_purged_unique(orig, mime@, now_ms);
        }
        kept.push(PendingEntry { mime: key, data, queued_at_ms: now_ms });
        self.pending = kept;
        proof {
            let p = self.pending@;
            assert(p.drop_last() =~= spec_purged(orig, mime@, now_ms));
            assert forall|a: int, b: int|
                #![trigger p[a], p[b]]
                0 <= a < b < p.len() implies p[a].mime@ != p[b].mime@ by {
                if b < p.len() - 1 {
                    assert(p[a] == p.drop_last()[a] && p[b] == p.drop_last()[b]);
                } else {
                    assert(p[a] == p.drop_last()[a]);
                    assert(p[b].mime@ == mime@);
                }
            }
        }
    }

    /// Answer a transfer request for `mime` with serial `serial`.
    ///
    /// When a payload is queued for the MIME type, the action provides its
    /// bytes; otherwise it signals failure for the serial.  The entry stays
    /// queued either way: the payload must survive a failed write, so it
    /// leaves the queue only through `complete_transfer`, once the write is
    /// known to have succeeded.
    pub fn handle_transfer(&self, mime: &str, serial: u32) -> (r: TransferAction)
        requires
            self.wf(),
        ensures
            (r is ProvideData) == (exists|i: int|
                0 <= i < self.spec_pending().len() && #[trigger] self.spec_pending()[i].mime@
                    == mime@),
            r is ProvideData ==> r->ProvideData_serial == serial && exists|i: int|
                0 <= i < self.spec_pending().len() && #[trigger] self.spec_pending()[i].mime@
                    == mime@ && r->ProvideData_data@ == self.spec_pending()[i].data@,
            r is SignalFailure ==> r->SignalFailure_serial == serial,
    {
        let key = String::from_str(mime);
        let n = self.pending.len();
        let mut i: usize = 0;
        while i < n
            invariant
                n == self.pending@.len(),
                0 <= i <= n,
                key@ == mime@,
                forall|j: int| 0 <= j < i ==> #[trigger] self.pending@[j].mime@ != mime@,
            decreases n - i,
        {
            if self.pending[i].mime == key {
                proof {
                    assert(self.spec_pending()[i as int].mime@ == mime@);
                }
                let data = crate::util::clone_bytes(&self.pending[i].data);
                return TransferAction::ProvideData { serial, data };
            }
            i = i + 1;
        }
        TransferAction::SignalFailure { serial }
    }

    /// Record that the payload for `mime` was written successfully: its
    /// entry leaves the queue.  Returns whether an entry was removed; an
    /// unknown MIME type changes nothing.
    pub fn complete_transfer(&mut self, mime: &str) -> (removed: bool)
        requires
            old(self).wf(),
        ensures
            final(self).wf(),
            final(self).spec_cached_files() == old(self).spec_cached_files(),
            removed == (exists|i: int|
                0 <= i < old(self).spec_pending().len() && #[trigger] old(
                    self,
                ).spec_pending()[i].mime@ == mime@),
            removed ==> exists|i: int|
                0 <= i < old(self).spec_pending().len() && #[trigger] old(
                    self,
                ).spec_pending()[i].mime@ == mime@ && final(self).spec_pending() == old(
                    self,
                ).spec_pending().remove(i),
            !removed ==> final(self).spec_pending() == old(self).spec_pending(),
    {
        let key = String::from_str(mime);
        let n = self.pending.len();
        let mut i: usize = 0;
        while i < n
            invariant
                n == self.pending@.len(),
                0 <= i <= n,
                self.pending@ == old(self).spec_pending(),
                self.cached_files@ == old(self).spec_cached_files(),
                spec_mimes_unique(self.pending@),
                key@ == mime@,
                forall|j: int| 0 <= j < i ==> #[trigger] self.pending@[j].mime@ != mime@,
            decreases n - i,
        {
            if self.pending[i].mime == key {
                proof {
                    assert(old(self).spec_pending()[i as int].mime@ == mime@);
                }
                self.pending.remove(i);
                proof {
                    crate::clipboard::lemma_unique_remove(old(self).spec_pending(), i as int);
                }
                return true;
            }
            i = i + 1;
        }
        false
    }

    /// Whether a payload is queued for a MIME type.
    pub fn has_pending(&self, mime: &str) -> (r: bool)
        ensures
            r == exists|i: int|
                0 <= i < self.spec_pending().len() && #[trigger] self.spec_pending()[i].mime@
                    == mime@,
    {
        let key = String::from_str(mime);
        let n = self.pending.len();
        let mut i: usize = 0;
        while i < n
            invariant
                n == self.pending@.len(),
                0 <= i <= n,
                key@ == mime@,
                forall|j: int| 0 <= j < i ==> #[trigger] self.pending@[j].mime@ != mime@,
            decreases n - i,
        {
            if self.pending[i].mime == key {
                proof {
                    assert(self.spec_pending()[i as int].mime@ == mime@);
                }
                return true;
            }
            i = i + 1;
        }
        false
    }

    /// Number of queued payloads.
    pub fn pending_len(&self) -> (r: usize)
        ensures
            r == self.spec_pending().len(),
    {
        self.pending.len()
    }

    /// Replace the cached file list with the paths of the last URI-list
    /// read.
    pub fn cache_files(&mut self, paths: Vec<String>)
        requires
            old(self).wf(),
        ensures
            final(self).wf(),
            final(self).spec_pending() == old(self).spec_pending(),
            final(self).spec_cached_files() == paths@,
    {
        self.cached_files = paths;
    }

    /// The cached path at an index, for chunked file reads.
    pub fn cached_path(&self, index: usize) -> (r: Option<&String>)
        ensures
            (r is Some) == (index < self.spec_cached_files().len()),
            r is Some ==> *r->Some_0 == self.spec_cached_files()[index as int],
    {
        if index < self.cached_files.len() {
            Some(&self.cached_files[index])
        } else {
            None
        }
    }

    /// Number of cached file paths.
    pub fn cached_len(&self) -> (r: usize)
        ensures
            r == self.spec_cached_files().len(),
    {
        self.cached_files.len()
    }
}

/// Purging keeps the queue uniquely keyed, removes every entry of the
/// purged MIME type, and invents no entries.
pub proof fn lemma_purged_unique(s: Seq<PendingEntry>, mime: Seq<char>, now_ms: u64)
    requires
        spec_mimes_unique(s),
    ensures
        spec_mimes_unique(spec_purged(s, mime, now_ms)),
        forall|k: int|
            0 <= k < spec_purged(s, mime, now_ms).len() ==> #[trigger] spec_purged(
                s,
                mime,
                now_ms,
            )[k].mime@ != mime,
        forall|k: int|
            0 <= k < spec_purged(s, mime, now_ms).len() ==> exists|j: int|
                0 <= j < s.len() && #[trigger] spec_purged(s, mime, now_ms)[k] == s[j],
    decreases s.len(),
{
    if s.len() > 0 {
        let head = s.drop_last();
        assert(spec_mimes_unique(head)) by {
            assert forall|a: int, b: int|
                #![trigger head[a], head[b]]
                0 <= a < b < head.len() implies head[a].mime@ != head[b].mime@ by {
                assert(head[a] == s[a] && head[b] == s[b]);
                assert(s[a].mime@ != s[b].mime@);
            }
        }
        lemma_purged_unique(head, mime, now_ms);
        let ph = spec_purged(head, mime, now_ms);
        let p = spec_purged(s, mime, now_ms);
        if s.last().mime@ != mime && spec_entry_fresh(s.last(), now_ms) {
            assert(p == ph.push(s.last()));
            assert forall|a: int, b: int|
                #![trigger p[a], p[b]]
                0 <= a < b < p.len() implies p[a].mime@ != p[b].mime@ by {
                if b < p.len() - 1 {
                    assert(p[a] == ph[a] && p[b] == ph[b]);
                } else {
                    assert(p[a] == ph[a]);
                    assert(p[b] == s.last());
                    let j = choose|j: int| 0 <= j < head.len() && ph[a] == head[j];
                    assert(head[j] == s[j]);
                    assert(s[j].mime@ != s[s.len() - 1].mime@);
                }
            }
            assert forall|k: int|
                0 <= k < p.len() implies exists|j: int|
                0 <= j < s.len() && #[trigger] p[k] == s[j] by {
                if k < p.len() - 1 {
                    let j = choose|j: int| 0 <= j < head.len() && ph[k] == head[j];
                    assert(p[k] == s[j]);
                } else {
                    assert(p[k] == s[s.len() - 1]);
                }
            }
        } else {
            assert(p == ph);
            assert forall|k: int|
                0 <= k < p.len() implies exists|j: int|
                0 <= j < s.len() && #[trigger] p[k] == s[j] by {
                let j = choose|j: int| 0 <= j < head.len() && ph[k] == head[j];
                assert(p[k] == s[j]);
            }
        }
    }
}

/// Removing an entry from a uniquely-keyed queue keeps it uniquely keyed.
pub proof fn lemma_unique_remove(s: Seq<PendingEntry>, i: int)
    requires
        spec_mimes_unique(s),
        0 <= i < s.len(),
    ensures
        spec_mimes_unique(s.remove(i)),
{
    let t = s.remove(i);
    assert forall|p: int, q: int|
        #![trigger t[p], t[q]]
        0 <= p < q < t.len() implies t[p].mime@ != t[q].mime@ by {
        let p0 = if p < i {
            p
        } else {
            p + 1
        };
        let q0 = if q < i {
            q
        } else {
            q + 1
        };
        assert(t[p] == s[p0] && t[q] == s[q0]);
        assert(s[p0].mime@ != s[q0].mime@);
    }
}

/// ASCII whitespace that line trimming removes.
pub open spec fn spec_is_ws(c: char) -> bool {
    c == ' ' || c == '\t' || c == '\r'
}

/// A line with leading whitespace removed.
pub open spec fn spec_trim_front(s: Seq<char>) -> Seq<char>
    decreases s.len(),
{
    if s.len() > 0 && spec_is_ws(s[0]) {
        spec_trim_front(s.drop_first())
    } else {
        s
    }
}

/// A line with trailing whitespace removed.
pub open spec fn spec_trim_back(s: Seq<char>) -> Seq<char>
    decreases s.len(),
{
    if s.len() > 0 && spec_is_ws(s.last()) {
        spec_trim_back(s.drop_last())
    } else {
        s
    }
}

/// A line with surrounding whitespace removed.
pub open spec fn spec_trim(s: Seq<char>) -> Seq<char> {
    spec_trim_back(spec_trim_front(s))
}

/// The index of the first line break, or the length when there is none.
pub open spec fn spec_line_end(s: Seq<char>) -> nat
    decreases s.len(),
{
    if s.len() == 0 {
        0
    } else if s[0] == '\n' {
        0
    } else {
        1 + spec_line_end(s.drop_first())
    }
}

/// The lines of a text, split on line breaks; a trailing line break ends
/// the last line without starting a new one.
pub open spec fn spec_split_lines(s: Seq<char>) -> Seq<Seq<char>>
    decreases s.len(),
{
    if s.len() == 0 {
        Seq::empty()
    } else {
        let e = spec_line_end(s) as int;
        if e < s.len() {
            seq![s.take(e)] + spec_split_lines(s.skip(e + 1))
        } else {
            seq![s]
        }
    }
}

/// The `file://` scheme prefix of a URI-list line.
pub open spec fn spec_file_scheme() -> Seq<char> {
    seq!['f', 'i', 'l', 'e', ':', '/', '/']
}

/// The local path a URI-list line names, if any: the line is trimmed;
/// empty lines and `#` comments carry nothing; a `file://` line carries its
/// percent-decoded remainder.
pub open spec fn spec_parse_line(line: Seq<char>) -> Option<Seq<char>> {
    let t = spec_trim(line);
    if t.len() == 0 || t[0] == '#' {
        None
    } else if t.len() >= 7 && t.take(7) == spec_file_scheme() {
        Some(spec_percent_decode(t.skip(7)))
    } else {
        None
    }
}

/// The local paths of a sequence of URI-list lines, in order.
pub open spec fn spec_collect_paths(lines: Seq<Seq<char>>) -> Seq<Seq<char>>
    decreases lines.len(),
{
    if lines.len() == 0 {
        Seq::empty()
    } else {
        let head = spec_collect_paths(lines.drop_last());
        match spec_parse_line(lines.last()) {
            Some(p) => head.push(p),
            None => head,
        }
    }
}

/// The local paths a URI-list text names, in order.
pub open spec fn spec_parse_uri_list(s: Seq<char>) -> Seq<Seq<char>> {
    spec_collect_paths(spec_split_lines(s))
}

/// A scan that found no line break before `e`, and one at `e` unless the
/// text ended, found the first line break.
proof fn lemma_line_end_at(s: Seq<char>, e: int)
    requires
        0 <= e <= s.len(),
        forall|j: int| 0 <= j < e ==> s[j] != '\n',
        e < s.len() ==> s[e] == '\n',
    ensures
        spec_line_end(s) == e,
    decreases e,
{
    if e > 0 {
        assert(s[0] != '\n');
        let t = s.drop_first();
        assert forall|j: int| 0 <= j < e - 1 implies t[j] != '\n' by {
            assert(t[j] == s[j + 1]);
        }
        if e - 1 < t.len() {
            assert(t[e - 1] == s[e]);
        }
        lemma_line_end_at(t, e - 1);
    } else {
        if s.len() > 0 {
            assert(s[0] == '\n');
        }
    }
}

/// A front scan that stopped at the first non-whitespace character trimmed
/// the front.
proof fn lemma_trim_front_at(s: Seq<char>, k: int)
    requires
        0 <= k <= s.len(),
        forall|j: int| 0 <= j < k ==> spec_is_ws(s[j]),
        k < s.len() ==> !spec_is_ws(s[k]),
    ensures
        spec_trim_front(s) == s.skip(k),
    decreases k,
{
    if k > 0 {
        assert(spec_is_ws(s[0]));
        let t = s.drop_first();
        assert forall|j: int| 0 <= j < k - 1 implies spec_is_ws(t[j]) by {
            assert(t[j] == s[j + 1]);
        }
        if k - 1 < t.len() {
            assert(t[k - 1] == s[k]);
        }
        lemma_trim_front_at(t, k - 1);
        assert(t.skip(k - 1) =~= s.skip(k));
    } else {
        assert(s.skip(0) =~= s);
    }
}

/// A back scan that stopped at the last non-whitespace character trimmed
/// the back.
proof fn lemma_trim_back_at(s: Seq<char>, k: int)
    requires
        0 <= k <= s.len(),
        forall|j: int| k <= j < s.len() ==> spec_is_ws(s[j]),
        k > 0 ==> !spec_is_ws(s[k - 1]),
    ensures
        spec_trim_back(s) == s.take(k),
    decreases s.len() - k,
{
    if k < s.len() {
        assert(spec_is_ws(s.last()));
        let t = s.drop_last();
        assert forall|j: int| k <= j < t.len() implies spec_is_ws(t[j]) by {
            assert(t[j] == s[j]);
        }
        lemma_trim_back_at(t, k);
        assert(t.take(k) =~= s.take(k));
    } else {
        assert(s.take(s.len() as int) =~= s);
    }
}

/// Copy a range of characters.
fn copy_range(s: &Vec<char>, a: usize, b: usize) -> (r: Vec<char>)
    requires
        a <= b <= s@.len(),
    ensures
        r@ == s@.subrange(a as int, b as int),
{
    let mut r: Vec<char> = Vec::new();
    let mut i: usize = a;
    while i < b
        invariant
            a <= i <= b <= s@.len(),
            r@ == s@.subrange(a as int, i as int),
        decreases b - i,
    {
        r.push(s[i]);
        proof {
            assert(r@ =~= s@.subrange(a as int, i as int + 1));
        }
        i = i + 1;
    }
    r
}

/// Trim surrounding ASCII whitespace from a line.
fn trim_chars(line: &Vec<char>) -> (r: Vec<char>)
    ensures
        r@ == spec_trim(line@),
{
    let n = line.len();
    let mut start: usize = 0;
    while start < n && (line[start] == ' ' || line[start] == '\t' || line[start] == '\r')
        invariant
            0 <= start <= n,
            n == line@.len(),
            forall|j: int| 0 <= j < start ==> spec_is_ws(#[trigger] line@[j]),
        decreases n - start,
    {
        start = start + 1;
    }
    proof {
        lemma_trim_front_at(line@, start as int);
    }
    let mut end: usize = n;
    while end > start && (line[end - 1] == ' ' || line[end - 1] == '\t' || line[end - 1] == '\r')
        invariant
            start <= end <= n,
            n == line@.len(),
            forall|j: int| 0 <= j < start ==> spec_is_ws(#[trigger] line@[j]),
            forall|j: int| end <= j < n ==> spec_is_ws(#[trigger] line@[j]),
        decreases end,
    {
        end = end - 1;
    }
    proof {
        let f = line@.skip(start as int);
        assert forall|j: int| end - start <= j < f.len() implies spec_is_ws(f[j]) by {
            assert(f[j] == line@[j + start]);
        }
        if end > start {
            assert(f[end - start - 1] == line@[end - 1]);
        }
        lemma_trim_back_at(f, end as int - start as int);
        assert(f.take(end as int - start as int) =~= line@.subrange(start as int, end as int));
    }
    copy_range(line, start, end)
}

/// Parse one URI-list line into the local path it names, if any.
fn parse_uri_line(line: &Vec<char>) -> (r: Option<Vec<char>>)
    ensures
        (r is Some) == (spec_parse_line(line@) is Some),
        r is Some ==> r->0@ == spec_parse_line(line@)->0,
{
    let t = trim_chars(line);
    if t.len() == 0 {
        return None;
    }
    if t[0] == '#' {
        return None;
    }
    if t.len() < 7 {
        return None;
    }
    let is_file = t[0] == 'f' && t[1] == 'i' && t[2] == 'l' && t[3] == 'e' && t[4] == ':' && t[5]
        == '/' && t[6] == '/';
    if !is_file {
        proof {
            assert(t@.take(7) != spec_file_scheme()) by {
                if t@.take(7) == spec_file_scheme() {
                    assert(t@.take(7)[0] == t@[0] && t@.take(7)[1] == t@[1] && t@.take(7)[2]
                        == t@[2] && t@.take(7)[3] == t@[3] && t@.take(7)[4] == t@[4] && t@.take(
                        7,
                    )[5] == t@[5] && t@.take(7)[6] == t@[6]);
                }
            }
        }
        return None;
    }
    proof {
        assert(t@.take(7) =~= spec_file_scheme());
    }
    let rest = copy_range(&t, 7, t.len());
    proof {
        assert(t@.subrange(7, t@.len() as int) =~= t@.skip(7));
    }
    Some(percent_decode_chars(&rest))
}

/// Split a text into its lines.
fn split_lines(s: &Vec<char>) -> (r: Vec<Vec<char>>)
    ensures
        r@.len() == spec_split_lines(s@).len(),
        forall|i: int|
            0 <= i < r@.len() ==> #[trigger] r@[i]@ == spec_split_lines(s@)[i],
{
    let n = s.len();
    let mut lines: Vec<Vec<char>> = Vec::new();
    let ghost mut glines: Seq<Seq<char>> = Seq::empty();
    let mut pos: usize = 0;
    proof {
        assert(s@.skip(0) =~= s@);
    }
    while pos < n
        invariant
            0 <= pos <= n,
            n == s@.len(),
            glines.len() == lines@.len(),
            forall|i: int| 0 <= i < lines@.len() ==> #[trigger] lines@[i]@ == glines[i],
            spec_split_lines(s@) == glines + spec_split_lines(s@.skip(pos as int)),
        decreases n - pos,
    {
        let mut e: usize = pos;
        while e < n && s[e] != '\n'
            invariant
                pos <= e <= n,
                n == s@.len(),
                forall|j: int| pos <= j < e ==> s@[j] != '\n',
            decreases n - e,
        {
            e = e + 1;
        }
        let line = copy_range(s, pos, e);
        lines.push(line);
        proof {
            let rest = s@.skip(pos as int);
            assert forall|j: int| 0 <= j < e - pos implies rest[j] != '\n' by {
                assert(rest[j] == s@[j + pos]);
            }
            if e < n {
                assert(rest[e - pos] == s@[e as int]);
            }
            lemma_line_end_at(rest, e as int - pos as int);
            assert(rest.take(e as int - pos as int) =~= s@.subrange(pos as int, e as int));
            if e < n {
                assert(rest.skip(e as int - pos as int + 1) =~= s@.skip(e as int + 1));
            }
            glines = glines.push(s@.subrange(pos as int, e as int));
            if e as int == n {
                assert(rest == s@.subrange(pos as int, e as int));
                assert(s@.skip(n as int).len() == 0);
                assert(spec_split_lines(s@.skip(n as int)) =~= Seq::<Seq<char>>::empty());
                assert(glines + spec_split_lines(s@.skip(n as int)) =~= glines);
                assert(glines.drop_last() + seq![rest] =~= glines);
            }
        }
        pos = if e < n {
            e + 1
        } else {
            n
        };
    }
    proof {
        assert(s@.skip(n as int).len() == 0);
        assert(spec_split_lines(s@.skip(n as int)) =~= Seq::<Seq<char>>::empty());
        assert(glines + spec_split_lines(s@.skip(n as int)) =~= glines);
    }
    lines
}

/// Parse a `text/uri-list` clipboard payload into the local paths it names:
/// one `file://` line per path, percent-decoded, with empty lines and `#`
/// comments ignored.
pub fn parse_uri_list(text: &str) -> (r: Vec<String>)
    ensures
        r@.len() == spec_parse_uri_list(text@).len(),
        forall|i: int|
            0 <= i < r@.len() ==> #[trigger] r@[i]@ == spec_parse_uri_list(text@)[i],
{
    let chars = str_to_chars(text);
    let lines = split_lines(&chars);
    let ghost glines = spec_split_lines(chars@);
    let mut out: Vec<String> = Vec::new();
    let mut i: usize = 0;
    while i < lines.len()
        invariant
            0 <= i <= lines@.len(),
            lines@.len() == glines.len(),
            forall|k: int| 0 <= k < lines@.len() ==> #[trigger] lines@[k]@ == glines[k],
            glines == spec_split_lines(chars@),
            chars@ == text@,
            out@.len() == spec_collect_paths(glines.take(i as int)).len(),
            forall|k: int|
                0 <= k < out@.len() ==> #[trigger] out@[k]@ == spec_collect_paths(
                    glines.take(i as int),
                )[k],
        decreases lines@.len() - i,
    {
        proof {
            assert(glines.take(i as int + 1).drop_last() =~= glines.take(i as int));
            assert(glines.take(i as int + 1).last() == glines[i as int]);
        }
        let parsed = parse_uri_line(&lines[i]);
        if let Some(p) = parsed {
            out.push(chars_to_string(&p));
        }
        i = i + 1;
    }
    proof {
        assert(glines.take(glines.len() as int) =~= glines);
    }
    out
}

/// A character that file names may not carry; it becomes an underscore.
pub open spec fn spec_bad_filename_char(c: char) -> bool {
    c == '/' || c == '\\' || c == '\0' || c == ':' || c == '*' || c == '?' || c == '"' || c
        == '<' || c == '>' || c == '|'
}

/// A file name with every unsafe character replaced by an underscore.
pub open spec fn spec_sanitize(s: Seq<char>) -> Seq<char> {
    Seq::new(
        s.len(),
        |i: int|
            if spec_bad_filename_char(s[i]) {
                '_'
            } else {
                s[i]
            },
    )
}

/// Replace path separators and other unsafe characters in a file name with
/// underscores.
pub fn sanitize_filename(name: &str) -> (r: String)
    ensures
        r@ == spec_sanitize(name@),
{
    let chars = str_to_chars(name);
    let mut out: Vec<char> = Vec::new();
    let mut i: usize = 0;
    while i < chars.len()
        invariant
            0 <= i <= chars@.len(),
            chars@ == name@,
            out@ == spec_sanitize(name@).take(i as int),
        decreases chars@.len() - i,
    {
        let c = chars[i];
        let bad = c == '/' || c == '\\' || c == '\0' || c == ':' || c == '*' || c == '?' || c
            == '"' || c == '<' || c == '>' || c == '|';
        if bad {
            out.push('_');
        } else {
            out.push(c);
        }
        proof {
            assert(out@ =~= spec_sanitize(name@).take(i as int + 1));
        }
        i = i + 1;
    }
    proof {
        assert(spec_sanitize(name@).take(name@.len() as int) =~= spec_sanitize(name@));
    }
    chars_to_string(&out)
}

/// The decimal digits of a number.
pub open spec fn spec_decimal(n: int) -> Seq<char>
    recommends
        n >= 0,
    decreases n,
{
    if n < 10 {
        seq![(48 + if n >= 0 { n } else { 0 }) as u8 as char]
    } else {
        spec_decimal(n / 10).push((48 + n % 10) as u8 as char)
    }
}

/// Format a number in decimal.
pub fn u32_to_decimal(n: u32) -> (r: String)
    ensures
        r@ == spec_decimal(n as int),
{
    let mut digits: Vec<char> = Vec::new();
    let mut m: u32 = n;
    while m >= 10
        invariant
            spec_decimal(n as int) == spec_decimal(m as int) + digits@.reverse(),
        decreases m,
    {
        let ghost prev = digits@;
        digits.push((48 + (m % 10) as u8) as char);
        proof {
            assert(digits@.reverse() =~= seq![(48 + (m as int) % 10) as u8 as char]
                + prev.reverse());
            assert(spec_decimal(m as int) == spec_decimal(m as int / 10).push(
                (48 + (m as int) % 10) as u8 as char,
            ));
            assert(spec_decimal(m as int / 10) + digits@.reverse() =~= spec_decimal(m as int)
                + prev.reverse());
        }
        m = m / 10;
    }
    let ghost prev = digits@;
    digits.push((48 + m as u8) as char);
    proof {
        assert(digits@.reverse() =~= seq![(48 + m as int) as u8 as char] + prev.reverse());
        assert(spec_decimal(m as int) =~= seq![(48 + m as int) as u8 as char]);
        assert(spec_decimal(m as int) + prev.reverse() =~= digits@.reverse());
    }
    let mut out: Vec<char> = Vec::new();
    let mut j: usize = digits.len();
    while j > 0
        invariant
            0 <= j <= digits@.len(),
            out@ == digits@.reverse().take(digits@.len() - j),
        decreases j,
    {
        out.push(digits[j - 1]);
        proof {
            assert(digits@.reverse()[digits@.len() - j] == digits@[j - 1]);
            assert(out@ =~= digits@.reverse().take(digits@.len() - j + 1));
        }
        j = j - 1;
    }
    proof {
        assert(digits@.reverse().take(digits@.len() as int) =~= digits@.reverse());
    }
    chars_to_string(&out)
}

/// The index after the last slash of a path; zero when there is none.
pub open spec fn spec_after_last_slash(s: Seq<char>) -> int
    decreases s.len(),
{
    if s.len() == 0 {
        0
    } else if s.last() == '/' {
        s.len() as int
    } else {
        spec_after_last_slash(s.drop_last())
    }
}

/// The base name of a path: everything after its last slash.
pub open spec fn spec_basename(s: Seq<char>) -> Seq<char> {
    s.skip(spec_after_last_slash(s))
}

/// The sanitised file name a received path is written under: the base name
/// with unsafe characters replaced; a path whose base name is empty, `.` or
/// `..` names no file.
pub open spec fn spec_destination_filename(s: Seq<char>) -> Option<Seq<char>> {
    let b = spec_sanitize(spec_basename(s));
    if b.len() == 0 || b == seq!['.'] || b == seq!['.', '.'] {
        None
    } else {
        Some(b)
    }
}

/// A back scan that stopped at the last slash found the base name start.
proof fn lemma_after_last_slash_at(s: Seq<char>, k: int)
    requires
        0 <= k <= s.len(),
        forall|j: int| k <= j < s.len() ==> s[j] != '/',
        k > 0 ==> s[k - 1] == '/',
    ensures
        spec_after_last_slash(s) == k,
    decreases s.len() - k,
{
    if k < s.len() {
        assert(s.last() != '/');
        let t = s.drop_last();
        assert forall|j: int| k <= j < t.len() implies t[j] != '/' by {
            assert(t[j] == s[j]);
        }
        if k > 0 {
            assert(t[k - 1] == s[k - 1]);
        }
        lemma_after_last_slash_at(t, k);
    }
}

/// The file name a received path should be written under, per
/// `spec_destination_filename`.
pub fn destination_filename(path: &str) -> (r: Option<String>)
    ensures
        (r is Some) == (spec_destination_filename(path@) is Some),
        r is Some ==> r->0@ == spec_destination_filename(path@)->0,
{
    let chars = str_to_chars(path);
    let n = chars.len();
    let mut k: usize = n;
    while k > 0 && chars[k - 1] != '/'
        invariant
            0 <= k <= n,
            n == chars@.len(),
            chars@ == path@,
            forall|j: int| k <= j < n ==> chars@[j] != '/',
        decreases k,
    {
        k = k - 1;
    }
    proof {
        lemma_after_last_slash_at(path@, k as int);
    }
    let base = copy_range(&chars, k, n);
    proof {
        assert(chars@.subrange(k as int, n as int) =~= path@.skip(k as int));
    }
    let mut sanitized: Vec<char> = Vec::new();
    let mut i: usize = 0;
    while i < base.len()
        invariant
            0 <= i <= base@.len(),
            base@ == spec_basename(path@),
            sanitized@ == spec_sanitize(spec_basename(path@)).take(i as int),
        decreases base@.len() - i,
    {
        let c = base[i];
        let bad = c == '/' || c == '\\' || c == '\0' || c == ':' || c == '*' || c == '?' || c
            == '"' || c == '<' || c == '>' || c == '|';
        if bad {
            sanitized.push('_');
        } else {
            sanitized.push(c);
        }
        proof {
            assert(sanitized@ =~= spec_sanitize(spec_basename(path@)).take(i as int + 1));
        }
        i = i + 1;
    }
    proof {
        assert(spec_sanitize(spec_basename(path@)).take(base@.len() as int) =~= spec_sanitize(
            spec_basename(path@),
        ));
    }
    if sanitized.len() == 0 {
        return None;
    }
    if sanitized.len() == 1 && sanitized[0] == '.' {
        proof {
            assert(sanitized@ =~= seq!['.']);
        }
        return None;
    }
    if sanitized.len() == 2 && sanitized[0] == '.' && sanitized[1] == '.' {
        proof {
            assert(sanitized@ =~= seq!['.', '.']);
        }
        return None;
    }
    proof {
        if sanitized@ == seq!['.'] {
            assert(sanitized@.len() == 1 && sanitized@[0] == '.');
        }
        if sanitized@ == seq!['.', '.'] {
            assert(sanitized@.len() == 2 && sanitized@[0] == '.' && sanitized@[1] == '.');
        }
    }
    Some(chars_to_string(&sanitized))
}

/// The index of the last dot of a file name, or zero when the name has no
/// extension: a leading dot marks a hidden file, not an extension.
pub open spec fn spec_ext_start(s: Seq<char>) -> int
    decreases s.len(),
{
    if s.len() <= 1 {
        0
    } else if s.last() == '.' {
        s.len() - 1
    } else {
        spec_ext_start(s.drop_last())
    }
}

/// A back scan that stopped at the last dot after the first character found
/// the extension start.
proof fn lemma_ext_start_at(s: Seq<char>, k: int)
    requires
        0 <= k <= s.len(),
        forall|j: int| k <= j < s.len() && j >= 1 ==> s[j] != '.',
        k > 0 ==> k >= 1 && s[k - 1] == '.' && k - 1 >= 1,
    ensures
        spec_ext_start(s) == if k > 0 {
            k - 1
        } else {
            0int
        },
    decreases s.len() - k,
{
    if k < s.len() {
        if s.len() <= 1 {
        } else {
            assert(s.last() != '.');
            let t = s.drop_last();
            assert forall|j: int| k <= j < t.len() && j >= 1 implies t[j] != '.' by {
                assert(t[j] == s[j]);
            }
            if k > 0 {
                assert(t[k - 1] == s[k - 1]);
            }
            lemma_ext_start_at(t, k);
        }
    } else {
        if k > 0 {
            assert(s.len() >= 2);
            assert(s.last() == '.');
        } else {
            if s.len() > 1 {
                assert(s.last() != '.');
                lemma_ext_start_at(s.drop_last(), if k > s.len() - 1 {
                    s.len() - 1
                } else {
                    k
                });
            }
        }
    }
}

/// Split a file name into its stem and its extension (with the dot); a name
/// without an extension keeps everything in the stem.
pub fn split_stem_ext(name: &str) -> (r: (String, String))
    ensures
        ({
            let e = spec_ext_start(name@);
            if e > 0 {
                r.0@ == name@.take(e) && r.1@ == name@.skip(e)
            } else {
                r.0@ == name@ && r.1@.len() == 0
            }
        }),
{
    let chars = str_to_chars(name);
    let n = chars.len();
    let mut k: usize = n;
    while k > 1 && chars[k - 1] != '.'
        invariant
            0 <= k <= n,
            n == chars@.len(),
            chars@ == name@,
            k == n || k >= 1,
            forall|j: int| k <= j < n && j >= 1 ==> chars@[j] != '.',
        decreases k,
    {
        k = k - 1;
    }
    if k > 1 && chars[k - 1] == '.' && k - 1 >= 1 {
        proof {
            lemma_ext_start_at(name@, k as int);
        }
        let stem = copy_range(&chars, 0, k - 1);
        let ext = copy_range(&chars, k - 1, n);
        proof {
            assert(chars@.subrange(0, k as int - 1) =~= name@.take(k as int - 1));
            assert(chars@.subrange(k as int - 1, n as int) =~= name@.skip(k as int - 1));
        }
        (chars_to_string(&stem), chars_to_string(&ext))
    } else {
        proof {
            if k <= 1 {
                if n >= 1 {
                    assert(forall|j: int| 1 <= j < n ==> chars@[j] != '.');
                }
                lemma_ext_start_at(name@, 0);
            } else {
                lemma_ext_start_at(name@, k as int);
            }
        }
        let stem = copy_range(&chars, 0, n);
        proof {
            assert(chars@.subrange(0, n as int) =~= name@);
        }
        let empty: Vec<char> = Vec::new();
        (chars_to_string(&stem), chars_to_string(&empty))
    }
}

/// The collision name for attempt `n`: the stem, a parenthesised number,
/// and the extension.
pub fn candidate_name(stem: &str, ext: &str, n: u32) -> (r: String)
    ensures
        r@ == stem@ + " ("@ + spec_decimal(n as int) + ")"@ + ext@,
{
    let mut r = String::from_str(stem);
    r.append(" (");
    let num = u32_to_decimal(n);
    r.append(num.as_str());
    r.append(")");
    r.append(ext);
    r
}

} // verus!
