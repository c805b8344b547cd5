//! A small zip reader, enough to open a 3MF package. It reads stored and
//! deflated entries through the central directory. Zip64 and encrypted
//! entries are refused with an error.

use std::io::Read;
use vstd::prelude::*;
use crate::text::{concat, owned, push_decimal, decimal, chars_of, count_leading, eq_ignore_case, eq_ignore_case_from, lossy_text, text_from_bytes, trim_start};

verus! {

/// Largest entry this reader will inflate, in bytes.
pub const MAX_ENTRY: u64 = 1073741824u64;

pub const EOCD_SIG: u32 = 0x0605_4b50u32;

pub const CENTRAL_SIG: u32 = 0x0201_4b50u32;

pub const LOCAL_SIG: u32 = 0x0403_4b50u32;

/// The little-endian 16-bit number at `o`, if the bytes are there.
pub open spec fn le16(d: Seq<u8>, o: int) -> Option<int> {
    if 0 <= o && o + 2 <= d.len() {
        Some(d[o] + 256 * d[o + 1])
    } else {
        None
    }
}

/// The little-endian 32-bit number at `o`, if the bytes are there.
pub open spec fn le32(d: Seq<u8>, o: int) -> Option<int> {
    if 0 <= o && o + 4 <= d.len() {
        Some(d[o] + 256 * d[o + 1] + 65536 * d[o + 2] + 16777216 * d[o + 3])
    } else {
        None
    }
}

/// The lowest position where the end-of-central-directory record may
/// start: it lies in the last 64 kB.
pub open spec fn eocd_low(d: Seq<u8>) -> int {
    if d.len() > 22 + 65535 {
        d.len() - (22 + 65535)
    } else {
        0
    }
}

/// The last position `p < hi`, at or above the low bound, that holds the
/// end-of-central-directory signature.
pub open spec fn eocd_below(d: Seq<u8>, hi: int) -> Option<int>
    decreases hi - eocd_low(d),
{
    if hi <= eocd_low(d) {
        None
    } else if le32(d, hi - 1) == Some(EOCD_SIG as int) {
        Some(hi - 1)
    } else {
        eocd_below(d, hi - 1)
    }
}

/// Where the end-of-central-directory record starts.
pub open spec fn eocd(d: Seq<u8>) -> Option<int> {
    eocd_below(d, if d.len() > 21 { d.len() - 21 } else { 0 })
}

/// One central directory record: name bytes, method, flags, compressed
/// size, size, and the offset of the local header.
pub type RawEntry = (Seq<u8>, int, int, int, int, int);

/// The record at `o`, with the offset of the next one.
pub open spec fn central_record(d: Seq<u8>, o: int) -> Option<(RawEntry, int)> {
    if le32(d, o) != Some(CENTRAL_SIG as int) {
        None
    } else {
        match (le16(d, o + 8), le16(d, o + 10), le32(d, o + 20), le32(d, o + 24)) {
            (Some(flags), Some(method), Some(compressed), Some(size)) => match (
                le16(d, o + 28),
                le16(d, o + 30),
                le16(d, o + 32),
                le32(d, o + 42),
            ) {
                (Some(n), Some(e), Some(c), Some(local)) => if o + 46 + n <= d.len() {
                    Some(
                        (
                            (d.subrange(o + 46, o + 46 + n), method, flags, compressed, size, local),
                            o + 46 + n + e + c,
                        ),
                    )
                } else {
                    None
                },
                _ => None,
            },
            _ => None,
        }
    }
}

/// `count` records from `o` on.
pub open spec fn central_records(d: Seq<u8>, o: int, count: nat) -> Option<Seq<RawEntry>>
    decreases count,
{
    if count == 0 {
        Some(Seq::empty())
    } else {
        match central_record(d, o) {
            None => None,
            Some((e, next)) => match central_records(d, next, (count - 1) as nat) {
                None => None,
                Some(rest) => Some(seq![e] + rest),
            },
        }
    }
}

pub open spec fn msg_bad() -> Seq<char> {
    "not a zip file, or a damaged one"@
}

pub open spec fn msg_zip64() -> Seq<char> {
    "zip64 packages are not supported"@
}

/// The entries of a package, or why it cannot be read.
pub open spec fn open_spec(d: Seq<u8>) -> Result<Seq<RawEntry>, Seq<char>> {
    match eocd(d) {
        None => Err(msg_bad()),
        Some(p) => match (le16(d, p + 10), le32(d, p + 16)) {
            (Some(count), Some(cd)) => if count == 0xFFFF || cd == 0xFFFF_FFFF {
                Err(msg_zip64())
            } else {
                match central_records(d, cd, count as nat) {
                    None => Err(msg_bad()),
                    Some(es) => Ok(es),
                }
            },
            _ => Err(msg_bad()),
        },
    }
}

/// What `flate2`'s `DeflateDecoder`, read through `Read::take(limit)` to
/// the end, yields for a raw deflate stream: the bytes, or the error's text.
pub uninterp spec fn inflated(raw: Seq<u8>, limit: u64) -> Result<Seq<u8>, Seq<char>>;

/// Inflates a raw deflate stream with `flate2::read::DeflateDecoder`,
/// reading at most `limit` bytes of output. The result is `inflated` of the
/// arguments; `Read::take` gives no more than `limit` bytes.
#[verifier::external_body]
fn inflate(raw: &[u8], limit: u64) -> (r: Result<Vec<u8>, String>)
    ensures
        match r {
            Ok(v) => inflated(raw@, limit) == Ok::<Seq<u8>, Seq<char>>(v@) && v@.len() <= limit,
            Err(e) => inflated(raw@, limit) == Err::<Seq<u8>, Seq<char>>(e@),
        },
{
    let mut out = Vec::new();
    match flate2::read::DeflateDecoder::new(raw).take(limit).read_to_end(&mut out) {
        Ok(_) => Ok(out),
        Err(err) => Err(err.to_string()),
    }
}

/// The little-endian 16-bit number at `o`.
fn u16_at(d: &[u8], o: usize) -> (r: Option<u16>)
    ensures
        match r {
            Some(v) => le16(d@, o as int) == Some(v as int),
            None => le16(d@, o as int) is None,
        },
{
    if o < d.len() && d.len() - o >= 2 {
        Some(d[o] as u16 + (d[o + 1] as u16) * 256)
    } else {
        None
    }
}

/// The little-endian 32-bit number at `o`.
fn u32_at(d: &[u8], o: usize) -> (r: Option<u32>)
    ensures
        match r {
            Some(v) => le32(d@, o as int) == Some(v as int),
            None => le32(d@, o as int) is None,
        },
{
    if o < d.len() && d.len() - o >= 4 {
        Some(
            d[o] as u32 + (d[o + 1] as u32) * 256 + (d[o + 2] as u32) * 65536 + (d[o + 3] as u32)
                * 16777216,
        )
    } else {
        None
    }
}

/// `u16_at` at an offset that may lie past the end.
fn u16_at_far(d: &[u8], o: u64) -> (r: Option<u64>)
    ensures
        match r {
            Some(v) => le16(d@, o as int) == Some(v as int) && v <= 0xFFFFu64,
            None => le16(d@, o as int) is None,
        },
{
    if o >= d.len() as u64 {
        return None;
    }
    match u16_at(d, o as usize) {
        Some(v) => Some(v as u64),
        None => None,
    }
}

/// `u32_at` at an offset that may lie past the end.
fn u32_at_far(d: &[u8], o: u64) -> (r: Option<u64>)
    ensures
        match r {
            Some(v) => le32(d@, o as int) == Some(v as int) && v <= 0xFFFF_FFFFu64,
            None => le32(d@, o as int) is None,
        },
{
    if o >= d.len() as u64 {
        return None;
    }
    match u32_at(d, o as usize) {
        Some(v) => Some(v as u64),
        None => None,
    }
}

/// One central directory entry.
pub struct Entry {
    pub name: String,
    pub method: u16,
    pub flags: u16,
    pub compressed: u64,
    pub size: u64,
    pub local: u64,
}

/// What an entry records.
pub open spec fn entry_view(e: Entry) -> (Seq<char>, int, int, int, int, int) {
    (e.name@, e.method as int, e.flags as int, e.compressed as int, e.size as int, e.local as int)
}

pub open spec fn entry_views(s: Seq<Entry>) -> Seq<(Seq<char>, int, int, int, int, int)> {
    s.map_values(|e: Entry| entry_view(e))
}

pub open spec fn raw_views(s: Seq<RawEntry>) -> Seq<(Seq<char>, int, int, int, int, int)> {
    s.map_values(|e: RawEntry| raw_view(e))
}

/// What a central record gives an entry.
pub open spec fn raw_view(e: RawEntry) -> (Seq<char>, int, int, int, int, int) {
    (lossy_text(e.0), e.1, e.2, e.3, e.4, e.5)
}

fn record(d: &[u8], o: u64) -> (r: Option<(Entry, u64)>)
    requires
        o <= 0x100_0000_0000u64,
    ensures
        match (r, central_record(d@, o as int)) {
            (Some((e, next)), Some((re, n2))) => entry_view(e) == raw_view(re) && next as int == n2
                && entry_fits(e) && next <= o + 196651,
            (None, None) => true,
            _ => false,
        },
{
    if u32_at_far(d, o) != Some(CENTRAL_SIG as u64) {
        return None;
    }
    let flags = match u16_at_far(d, o + 8) { Some(v) => v, None => return None };
    let method = match u16_at_far(d, o + 10) { Some(v) => v, None => return None };
    let compressed = match u32_at_far(d, o + 20) { Some(v) => v, None => return None };
    let size = match u32_at_far(d, o + 24) { Some(v) => v, None => return None };
    let n = match u16_at_far(d, o + 28) { Some(v) => v, None => return None };
    let e = match u16_at_far(d, o + 30) { Some(v) => v, None => return None };
    let c = match u16_at_far(d, o + 32) { Some(v) => v, None => return None };
    let local = match u32_at_far(d, o + 42) { Some(v) => v, None => return None };
    if o + 46 + n > d.len() as u64 {
        return None;
    }
    let start = (o + 46) as usize;
    let end = (o + 46 + n) as usize;
    let name = text_from_bytes(&d[start..end]);
    Some((Entry { name, method: method as u16, flags: flags as u16, compressed, size, local }, o + 46 + n + e + c))
}

/// `done` followed by the records `rest` stands for, if any.
pub open spec fn joined(done: Seq<RawEntry>, rest: Option<Seq<RawEntry>>) -> Option<Seq<RawEntry>> {
    match rest {
        None => None,
        Some(r) => Some(done + r),
    }
}

proof fn lemma_records_step(d: Seq<u8>, o: int, m: nat, done: Seq<RawEntry>, re: RawEntry, next: int)
    requires
        m > 0,
        central_record(d, o) == Some((re, next)),
    ensures
        joined(done, central_records(d, o, m)) == joined(done.push(re), central_records(d, next, (m - 1) as nat)),
{
    match central_records(d, next, (m - 1) as nat) {
        None => {},
        Some(rest) => {
            assert(done + (seq![re] + rest) =~= done.push(re) + rest);
        },
    }
}

proof fn lemma_records_fail(d: Seq<u8>, o: int, m: nat)
    requires
        m > 0,
        central_record(d, o) is None,
    ensures
        central_records(d, o, m) is None,
{
}

/// The first entry whose name, without leading '/', equals `want`
/// ignoring ASCII case.
pub open spec fn find_entry(es: Seq<(Seq<char>, int, int, int, int, int)>, want: Seq<char>, from: int) -> Option<int>
    decreases es.len() - from,
{
    if from < 0 || from >= es.len() {
        None
    } else if eq_ignore_case(trim_start(es[from].0, '/'), want) {
        Some(from)
    } else {
        find_entry(es, want, from + 1)
    }
}

/// What reading the entry `name` gives: its bytes, or the error message.
/// A deflated entry is what `inflated` gives, through `finish_inflate_spec`.
pub open spec fn read_spec(d: Seq<u8>, es: Seq<(Seq<char>, int, int, int, int, int)>, name: Seq<char>) -> Result<
    Seq<u8>,
    Seq<char>,
> {
    let bad = name + ": damaged zip entry"@;
    match find_entry(es, trim_start(name, '/'), 0) {
        None => Err("the package has no "@ + name),
        Some(i) => {
            let (_n, method, flags, compressed, size, local) = es[i];
            if flags % 2 == 1 {
                Err(name + " is encrypted"@)
            } else if size > MAX_ENTRY {
                Err(name + " is too large"@)
            } else if le32(d, local) != Some(LOCAL_SIG as int) {
                Err(bad)
            } else {
                match (le16(d, local + 26), le16(d, local + 28)) {
                    (Some(n), Some(x)) => {
                        let start = local + 30 + n + x;
                        if start + compressed > d.len() {
                            Err(bad)
                        } else {
                            let raw = d.subrange(start, start + compressed);
                            if method == 0 {
                                Ok(raw)
                            } else if method == 8 {
                                finish_inflate_spec(name, inflated(raw, (MAX_ENTRY + 1) as u64))
                            } else {
                                Err(name + " uses zip method "@ + decimal(method as nat) + ", which is not supported"@)
                            }
                        }
                    },
                    _ => Err(bad),
                }
            }
        },
    }
}

/// The result of inflating entry `name`: refused when it is larger than
/// the limit, and an inflate error prefixed by the name.
pub open spec fn finish_inflate_spec(name: Seq<char>, decoded: Result<Seq<u8>, Seq<char>>) -> Result<Seq<u8>, Seq<char>> {
    match decoded {
        Ok(v) => if v.len() > MAX_ENTRY {
            Err(name + " is too large"@)
        } else {
            Ok(v)
        },
        Err(m) => Err(name + ": "@ + m),
    }
}

/// What follows the inflate call of `Zip::read`: an output over the limit
/// is refused, and an inflate error gets the entry name in front.
pub fn finish_inflate(name: &str, decoded: Result<Vec<u8>, String>) -> (r: Result<Vec<u8>, String>)
    ensures
        match (r, finish_inflate_spec(name@, match decoded { Ok(v) => Ok(v@), Err(m) => Err(m@) })) {
            (Ok(v), Ok(x)) => v@ == x,
            (Err(m), Err(x)) => m@ == x,
            _ => false,
        },
{
    match decoded {
        Ok(v) => if v.len() as u64 > MAX_ENTRY {
            Err(concat(name, " is too large"))
        } else {
            Ok(v)
        },
        Err(m) => {
            let mut s = concat(name, ": ");
            s.append(m.as_str());
            Err(s)
        },
    }
}

/// The sizes and offsets of an entry came from 32-bit fields.
pub open spec fn entry_fits(e: Entry) -> bool {
    e.compressed <= 0xFFFF_FFFFu64 && e.size <= 0xFFFF_FFFFu64 && e.local <= 0xFFFF_FFFFu64
}

/// A zip package in memory.
pub struct Zip<'a> {
    data: &'a [u8],
    entries: Vec<Entry>,
}

impl<'a> Zip<'a> {
    #[verifier::type_invariant]
    spec fn fits(&self) -> bool {
        forall|i: int| 0 <= i < self.entries@.len() ==> entry_fits(#[trigger] self.entries@[i])
    }

    /// The entries of the package, in central directory order.
    pub closed spec fn entries(&self) -> Seq<(Seq<char>, int, int, int, int, int)> {
        entry_views(self.entries@)
    }

    /// The bytes of the package.
    pub closed spec fn bytes(&self) -> Seq<u8> {
        self.data@
    }

    /// Reads the central directory. The result is `open_spec` of the bytes:
    /// the entries it lists (names decoded as `lossy_text`), or its error.
    pub fn open(data: &'a [u8]) -> (r: Result<Zip<'a>, String>)
        ensures
            match (r, open_spec(data@)) {
                (Ok(z), Ok(es)) => z.entries() == raw_views(es) && z.bytes()
                    == data@,
                (Err(m), Err(msg)) => m@ == msg,
                _ => false,
            },
    {
        let len = data.len();
        let lo: usize = if len > 22 + 65535 { len - (22 + 65535) } else { 0 };
        let mut hi: usize = if len > 21 { len - 21 } else { 0 };
        let mut p: usize = 0;
        loop
            invariant
                lo as int == eocd_low(data@),
                len == data@.len(),
                len > 21 ==> hi <= len - 21,
                len <= 21 ==> hi == 0,
                eocd_below(data@, hi as int) == eocd(data@),
            ensures
                p + 22 <= len,
                eocd(data@) == Some(p as int),
            decreases hi,
        {
            if hi <= lo {
                return Err(owned("not a zip file, or a damaged one"));
            }
            if u32_at(data, hi - 1) == Some(EOCD_SIG) {
                p = hi - 1;
                break;
            }
            hi = hi - 1;
        }
        let count = match u16_at(data, p + 10) {
            Some(v) => v,
            None => return Err(owned("not a zip file, or a damaged one")),
        };
        let cd = match u32_at(data, p + 16) {
            Some(v) => v,
            None => return Err(owned("not a zip file, or a damaged one")),
        };
        if count == 0xFFFFu16 || cd == 0xFFFF_FFFFu32 {
            return Err(owned("zip64 packages are not supported"));
        }
        let mut entries: Vec<Entry> = Vec::new();
        let mut o: u64 = cd as u64;
        let mut k: u16 = 0;
        let ghost mut done: Seq<RawEntry> = Seq::empty();
        while k < count
            invariant
                k <= count,
                eocd(data@) == Some(p as int),
                le16(data@, p + 10) == Some(count as int),
                le32(data@, p + 16) == Some(cd as int),
                !(count == 0xFFFFu16 || cd == 0xFFFF_FFFFu32),
                o <= 0xFFFF_FFFFu64 + (k as u64) * 196651u64,
                central_records(data@, cd as int, count as nat) == joined(
                    done,
                    central_records(data@, o as int, (count - k) as nat),
                ),
                entry_views(entries@) == raw_views(done),
                forall|i: int| 0 <= i < entries@.len() ==> entry_fits(#[trigger] entries@[i]),
            decreases count - k,
        {
            match record(data, o) {
                None => {
                    proof {
                        lemma_records_fail(data@, o as int, (count - k) as nat);
                    }
                    return Err(owned("not a zip file, or a damaged one"));
                },
                Some((e, next)) => {
                    let ghost re = central_record(data@, o as int)->Some_0.0;
                    proof {
                        lemma_records_step(data@, o as int, (count - k) as nat, done, re, next as int);
                    }
                    assert(entry_view(e) == raw_view(re));
                    let ghost old_entries = entries@;
                    entries.push(e);
                    proof {
                        let old_done = done;
                        done = done.push(re);
                        assert(entries@ == old_entries.push(e));
                        assert forall|j: int| 0 <= j < done.len() implies #[trigger] entry_views(entries@)[j] == raw_views(done)[j] by {
                            assert(entry_views(old_entries).len() == raw_views(old_done).len());
                            if j == old_done.len() {
                                assert(entries@[j] == e);
                                assert(done[j] == re);
                            } else {
                                assert(entries@[j] == old_entries[j]);
                                assert(done[j] == old_done[j]);
                                assert(entry_views(old_entries)[j] == raw_views(old_done)[j]);
                            }
                        }
                        assert(entry_views(old_entries).len() == raw_views(old_done).len());
                        assert(entries@.len() == done.len());
                        assert(entry_views(entries@) =~= raw_views(done));
                    }
                    o = next;
                },
            }
            k = k + 1;
        }
        proof {
            assert(done + Seq::<RawEntry>::empty() =~= done);
        }
        Ok(Zip { data, entries })
    }

    /// The bytes of one entry, by name. Names compare without case, and
    /// leading '/' characters are ignored. The result is `read_spec`.
    pub fn read(&self, name: &str) -> (r: Result<Vec<u8>, String>)
        ensures
            match (r, read_spec(self.bytes(), self.entries(), name@)) {
                (Ok(v), Ok(x)) => v@ == x,
                (Err(m), Err(x)) => m@ == x,
                _ => false,
            },
    {
        proof {
            use_type_invariant(self);
        }
        let nv = chars_of(name);
        let skip = count_leading(&nv, '/');
        let ghost want = trim_start(name@, '/');
        let ghost es = self.entries();
        let mut i: usize = 0;
        let mut found: Option<usize> = None;
        while i < self.entries.len()
            invariant_except_break
                found is None,
            invariant
                i <= self.entries@.len(),
                es == self.entries(),
                nv@ == name@,
                nv@.skip(skip as int) == want,
                skip <= nv@.len(),
                find_entry(es, want, i as int) == find_entry(es, want, 0),
            ensures
                found matches Some(j) ==> find_entry(es, want, 0) == Some(j as int) && j < es.len(),
                found is None ==> find_entry(es, want, 0) is None,
            decreases self.entries@.len() - i,
        {
            let ev = chars_of(self.entries[i].name.as_str());
            let k = count_leading(&ev, '/');
            assert(ev@ == es[i as int].0);
            if eq_ignore_case_from(&ev, k, &nv, skip) {
                found = Some(i);
                break;
            }
            i = i + 1;
        }
        let i = match found {
            None => {
                return Err(concat("the package has no ", name));
            },
            Some(i) => i,
        };
        let e = &self.entries[i];
        assert(es[i as int] == entry_view(*e));
        if e.flags % 2 == 1 {
            return Err(concat(name, " is encrypted"));
        }
        if e.size > MAX_ENTRY {
            return Err(concat(name, " is too large"));
        }
        let lo = e.local;
        if u32_at_far(self.data, lo) != Some(LOCAL_SIG as u64) {
            return Err(concat(name, ": damaged zip entry"));
        }
        let n = match u16_at_far(self.data, lo + 26) {
            Some(v) => v,
            None => return Err(concat(name, ": damaged zip entry")),
        };
        let x = match u16_at_far(self.data, lo + 28) {
            Some(v) => v,
            None => return Err(concat(name, ": damaged zip entry")),
        };
        let start = lo + 30 + n + x;
        if start + e.compressed > self.data.len() as u64 {
            return Err(concat(name, ": damaged zip entry"));
        }
        let raw = &self.data[start as usize..(start + e.compressed) as usize];
        if e.method == 0 {
            Ok(vstd::slice::slice_to_vec(raw))
        } else if e.method == 8 {
            finish_inflate(name, inflate(raw, MAX_ENTRY + 1))
        } else {
            let mut s = concat(name, " uses zip method ");
            push_decimal(&mut s, e.method as u64);
            s.append(", which is not supported");
            Err(s)
        }
    }

    /// The names of the entries, in order.
    pub fn names(&self) -> (r: Vec<&str>)
        ensures
            r@.map_values(|s: &str| s@) == self.entries().map_values(
                |e: (Seq<char>, int, int, int, int, int)| e.0,
            ),
    {
        let mut r: Vec<&str> = Vec::new();
        let mut i: usize = 0;
        while i < self.entries.len()
            invariant
                i <= self.entries@.len(),
                r@.len() == i,
                forall|j: int| 0 <= j < i ==> #[trigger] r@[j]@ == self.entries()[j].0,
            decreases self.entries@.len() - i,
        {
            r.push(self.entries[i].name.as_str());
            i = i + 1;
        }
        assert(r@.map_values(|s: &str| s@) =~= self.entries().map_values(
            |e: (Seq<char>, int, int, int, int, int)| e.0,
        ));
        r
    }
}

} // verus!
