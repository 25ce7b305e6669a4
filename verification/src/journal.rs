//! The offline report journal: encoded reports laid end to end, each behind
//! a protobuf length delimiter, and the half that survives when it grows
//! past its limit.
use vstd::prelude::*;

verus! {

/// A length delimiter: the length in little-endian groups of seven bits,
/// every group but the last with its high bit set.
pub open spec fn varint(n: nat) -> Seq<u8>
    decreases n,
{
    if n < 128 {
        seq![n as u8]
    } else {
        seq![((n % 128) + 128) as u8] + varint(n / 128)
    }
}

/// One record as the journal holds it.
pub open spec fn framed(record: Seq<u8>) -> Seq<u8> {
    varint(record.len()) + record
}

/// Records laid end to end.
pub open spec fn journal(records: Seq<Seq<u8>>) -> Seq<u8>
    decreases records.len(),
{
    if records.len() == 0 {
        Seq::empty()
    } else {
        framed(records[0]) + journal(records.skip(1))
    }
}

/// What `prost::decode_length_delimiter` reads at the front of a buffer: the
/// length, and how many bytes it took.
pub uninterp spec fn delimiter_read(buf: Seq<u8>) -> Option<(nat, nat)>;

/// `prost::encode_length_delimiter` into an empty buffer: the length in
/// LEB128. A growable buffer never lacks the room the call checks for, so
/// its capacity error does not arise.
#[verifier::external_body]
fn length_delimiter(length: usize) -> (delimiter: Vec<u8>)
    ensures
        delimiter@ == varint(length as nat),
{
    let mut delimiter: Vec<u8> = Vec::new();
    match prost::encode_length_delimiter(length, &mut delimiter) {
        Ok(()) => delimiter,
        Err(_) => delimiter,
    }
}

/// Whether `buf` starts with the shortest delimiter of `n`.
pub open spec fn starts_with_delimiter(buf: Seq<u8>, n: nat) -> bool {
    n <= usize::MAX && varint(n).len() <= buf.len() && buf.take(varint(n).len() as int) == varint(n)
}

/// The length whose shortest delimiter `buf` starts with, if any.
pub open spec fn leading_length(buf: Seq<u8>) -> Option<nat> {
    if exists|n: nat| starts_with_delimiter(buf, n) {
        Some(choose|n: nat| starts_with_delimiter(buf, n))
    } else {
        None
    }
}

/// Whether `buf` is the beginning of a delimiter and nothing more.
pub open spec fn cut_delimiter(buf: Seq<u8>) -> bool {
    exists|n: nat, k: int|
        n <= usize::MAX && 0 <= k < varint(n).len() && buf == #[trigger] varint(n).take(k)
}

/// Two shortest delimiters that start alike are the same delimiter.
proof fn lemma_varint_prefix_free(a: nat, b: nat)
    requires
        varint(a).len() <= varint(b).len(),
        varint(b).take(varint(a).len() as int) == varint(a),
    ensures
        a == b,
    decreases a,
{
    let va = varint(a);
    let vb = varint(b);
    assert(vb[0] == va[0]);
    if a >= 128 && b >= 128 {
        assert(va == seq![((a % 128) + 128) as u8] + varint(a / 128));
        assert(vb == seq![((b % 128) + 128) as u8] + varint(b / 128));
        assert(varint(b / 128).take(varint(a / 128).len() as int) =~= varint(a / 128)) by {
            assert forall|i: int| 0 <= i < varint(a / 128).len() implies #[trigger] varint(b / 128).take(
                varint(a / 128).len() as int,
            )[i] == varint(a / 128)[i] by {
                assert(vb[i + 1] == va[i + 1]);
            }
        }
        lemma_varint_prefix_free(a / 128, b / 128);
    }
}

proof fn lemma_leading_length(buf: Seq<u8>, n: nat)
    requires
        starts_with_delimiter(buf, n),
    ensures
        leading_length(buf) == Some(n),
{
    let m = choose|m: nat| starts_with_delimiter(buf, m);
    assert(starts_with_delimiter(buf, m));
    if varint(m).len() <= varint(n).len() {
        assert(varint(n).take(varint(m).len() as int) =~= varint(m)) by {
            assert forall|i: int| 0 <= i < varint(m).len() implies #[trigger] varint(n).take(
                varint(m).len() as int,
            )[i] == varint(m)[i] by {
                assert(buf.take(varint(n).len() as int)[i] == buf[i]);
                assert(buf.take(varint(m).len() as int)[i] == buf[i]);
            }
        }
        lemma_varint_prefix_free(m, n);
    } else {
        assert(varint(m).take(varint(n).len() as int) =~= varint(n)) by {
            assert forall|i: int| 0 <= i < varint(n).len() implies #[trigger] varint(m).take(
                varint(n).len() as int,
            )[i] == varint(n)[i] by {
                assert(buf.take(varint(n).len() as int)[i] == buf[i]);
                assert(buf.take(varint(m).len() as int)[i] == buf[i]);
            }
        }
        lemma_varint_prefix_free(n, m);
    }
}

/// `prost::decode_length_delimiter` on the front of `buf`, with what is left
/// after it. A read takes between one and ten bytes; a delimiter in its
/// shortest form reads back as the length it was written from; a buffer that
/// holds only the beginning of a delimiter reads as nothing.
#[verifier::external_body]
fn read_delimiter(buf: &[u8]) -> (read: Option<(usize, &[u8])>)
    ensures
        (match delimiter_read(buf@) {
            Some((length, used)) => read matches Some((l, rest)) && l == length && 1 <= used
                <= 10 && used <= buf@.len() && rest@ == buf@.skip(used as int),
            None => read is None,
        }),
        (match leading_length(buf@) {
            Some(n) => read matches Some((l, rest)) && l == n && rest@ == buf@.skip(
                varint(n).len() as int,
            ),
            None => true,
        }),
        cut_delimiter(buf@) ==> read is None,
{
    let mut rest: &[u8] = buf;
    match prost::decode_length_delimiter(&mut rest) {
        Ok(length) => Some((length, rest)),
        Err(_) => None,
    }
}

/// The records a journal's bytes hold, read front to back, stopping at the
/// first delimiter that does not read or a record cut short.
pub open spec fn records_of(raw: Seq<u8>) -> Seq<Seq<u8>>
    decreases raw.len(),
{
    if raw.len() == 0 {
        Seq::empty()
    } else {
        match delimiter_read(raw) {
            None => Seq::empty(),
            Some((length, used)) => if used < 1 || used > raw.len() || length > raw.len() - used {
                Seq::empty()
            } else {
                let body = raw.skip(used as int);
                seq![body.take(length as int)] + records_of(body.skip(length as int))
            },
        }
    }
}

/// One record with its delimiter in front.
pub fn frame(record: &[u8]) -> (bytes: Vec<u8>)
    ensures
        bytes@ == framed(record@),
{
    let mut bytes = length_delimiter(record.len());
    let mut i: usize = 0;
    let ghost start = bytes@;
    while i < record.len()
        invariant
            i <= record@.len(),
            bytes@ == start + record@.take(i as int),
        decreases record@.len() - i,
    {
        bytes.push(record[i]);
        i = i + 1;
        assert(bytes@ =~= start + record@.take(i as int));
    }
    assert(record@.take(i as int) =~= record@);
    bytes
}

fn copy_range(raw: &[u8], from: usize, to: usize) -> (out: Vec<u8>)
    requires
        from <= to <= raw@.len(),
    ensures
        out@ == raw@.subrange(from as int, to as int),
{
    let mut out: Vec<u8> = Vec::new();
    let mut i = from;
    while i < to
        invariant
            from <= i <= to,
            to <= raw@.len(),
            out@ == raw@.subrange(from as int, i as int),
        decreases to - i,
    {
        out.push(raw[i]);
        i = i + 1;
        assert(out@ =~= raw@.subrange(from as int, i as int));
    }
    out
}

/// `&bytes[from..]`.
fn slice_from(bytes: &[u8], from: usize) -> (tail: &[u8])
    requires
        from <= bytes@.len(),
    ensures
        tail@ == bytes@.skip(from as int),
{
    let (_, tail) = bytes.split_at(from);
    tail
}

/// Every record fits in a buffer.
pub open spec fn lengths_fit(records: Seq<Seq<u8>>) -> bool {
    forall|i: int| 0 <= i < records.len() ==> (#[trigger] records[i]).len() <= usize::MAX
}

/// A journal of whole records followed by the first `cut` bytes of one more.
pub open spec fn journal_cut_short(records: Seq<Seq<u8>>, last: Seq<u8>, cut: int) -> Seq<u8> {
    journal(records) + framed(last).take(cut)
}

proof fn lemma_varint_nonempty(n: nat)
    ensures
        varint(n).len() >= 1,
{
}

/// The records a journal holds, oldest first, up to the first one that does
/// not read whole. A journal written record by record reads back as those
/// records, and one whose last record was cut short anywhere reads back as
/// the whole records before it. Records are taken as bytes: whether a body
/// is a well-formed report is for whoever decodes it.
pub fn split_records(raw: &[u8]) -> (records: Vec<Vec<u8>>)
    ensures
        records@.len() == records_of(raw@).len(),
        forall|i: int| 0 <= i < records@.len() ==> (#[trigger] records@[i])@ == records_of(raw@)[i],
        forall|written: Seq<Seq<u8>>, last: Seq<u8>, cut: int|
            lengths_fit(written) && last.len() <= usize::MAX && 0 <= cut < framed(last).len()
                && raw@ == #[trigger] journal_cut_short(written, last, cut) ==> records_of(raw@)
                == written,
        forall|written: Seq<Seq<u8>>|
            lengths_fit(written) && raw@ == #[trigger] journal(written) ==> records_of(raw@)
                == written,
    decreases raw@.len(),
{
    let records = split_records_inner(raw);
    proof {
        assert forall|written: Seq<Seq<u8>>|
            lengths_fit(written) && raw@ == #[trigger] journal(written) implies records_of(raw@)
                == written by {
            let last = Seq::<u8>::empty();
            lemma_varint_nonempty(0);
            assert(journal_cut_short(written, last, 0) =~= journal(written));
        }
    }
    records
}

fn split_records_inner(raw: &[u8]) -> (records: Vec<Vec<u8>>)
    ensures
        records@.len() == records_of(raw@).len(),
        forall|i: int| 0 <= i < records@.len() ==> (#[trigger] records@[i])@ == records_of(raw@)[i],
        forall|written: Seq<Seq<u8>>, last: Seq<u8>, cut: int|
            lengths_fit(written) && last.len() <= usize::MAX && 0 <= cut < framed(last).len()
                && raw@ == #[trigger] journal_cut_short(written, last, cut) ==> records_of(raw@)
                == written,
    decreases raw@.len(),
{
    if raw.len() == 0 {
        proof {
            assert forall|written: Seq<Seq<u8>>, last: Seq<u8>, cut: int|
                lengths_fit(written) && last.len() <= usize::MAX && 0 <= cut < framed(last).len()
                    && raw@ == #[trigger] journal_cut_short(written, last, cut) implies records_of(
                    raw@,
                ) == written by {
                if written.len() > 0 {
                    lemma_varint_nonempty(written[0].len());
                    assert(journal(written).len() > 0);
                }
            }
        }
        return Vec::new();
    }
    let read = read_delimiter(raw);
    proof {
        // What a journal cut short says about the delimiter at its front.
        assert forall|written: Seq<Seq<u8>>, last: Seq<u8>, cut: int|
            lengths_fit(written) && last.len() <= usize::MAX && 0 <= cut < framed(last).len()
                && raw@ == #[trigger] journal_cut_short(written, last, cut) implies (
            if written.len() > 0 {
                let body = raw@.skip(varint(written[0].len()).len() as int);
                &&& delimiter_read(raw@) == Some((written[0].len(), varint(written[0].len()).len()))
                &&& body.take(written[0].len() as int) == written[0]
                &&& body.skip(written[0].len() as int) == journal_cut_short(written.skip(1), last, cut)
                &&& lengths_fit(written.skip(1))
            } else {
                match delimiter_read(raw@) {
                    None => true,
                    Some((length, used)) => length > raw@.len() - used,
                }
            }
        ) by {
            if written.len() > 0 {
                let first = written[0];
                let v = varint(first.len());
                assert(first.len() <= usize::MAX);
                assert(raw@ =~= v + (first + (journal(written.skip(1)) + framed(last).take(cut))));
                assert(raw@.take(v.len() as int) =~= v);
                lemma_leading_length(raw@, first.len());
                assert(read matches Some((l, rest)) && l == first.len() && rest@ == raw@.skip(
                    v.len() as int,
                ));
                match delimiter_read(raw@) {
                    Some((length, used)) => {
                        assert(raw@.skip(used as int).len() == raw@.skip(v.len() as int).len());
                    },
                    None => {},
                }
                let body = raw@.skip(v.len() as int);
                assert(body =~= first + (journal(written.skip(1)) + framed(last).take(cut)));
                assert(body.take(first.len() as int) =~= first);
                assert(body.skip(first.len() as int) =~= journal_cut_short(written.skip(1), last, cut));
                assert forall|i: int| 0 <= i < written.skip(1).len() implies (
                #[trigger] written.skip(1)[i]).len() <= usize::MAX by {
                    assert(written.skip(1)[i] == written[i + 1]);
                }
            } else {
                let v = varint(last.len());
                assert(journal(written) =~= Seq::<u8>::empty());
                assert(raw@ =~= framed(last).take(cut));
                if cut < v.len() {
                    assert(raw@ =~= v.take(cut));
                    assert(cut_delimiter(raw@));
                    assert(read is None);
                } else {
                    assert(raw@.take(v.len() as int) =~= v);
                    assert(raw@.len() == cut);
                    lemma_leading_length(raw@, last.len());
                    assert(read matches Some((l, rest)) && l == last.len() && rest@ == raw@.skip(
                        v.len() as int,
                    ));
                    match delimiter_read(raw@) {
                        Some((length, used)) => {
                            assert(raw@.skip(used as int).len() == raw@.skip(v.len() as int).len());
                        },
                        None => {},
                    }
                }
            }
        }
    }
    match read {
        None => Vec::new(),
        Some((length, body)) => {
            if length > body.len() {
                return Vec::new();
            }
            let ghost used = raw@.len() - body@.len();
            let record = copy_range(body, 0, length);
            let tail = slice_from(body, length);
            let mut rest = split_records_inner(tail);
            let ghost later = rest@;
            let mut records: Vec<Vec<u8>> = Vec::new();
            records.push(record);
            records.append(&mut rest);
            proof {
                assert(body@.take(length as int) =~= body@.subrange(0, length as int));
                let expected = records_of(raw@);
                assert(expected == seq![body@.take(length as int)] + records_of(body@.skip(length as int)));
                assert(tail@ =~= body@.skip(length as int));
                assert forall|i: int| 0 <= i < records@.len() implies (#[trigger] records@[i])@ == expected[i] by {
                    if i > 0 {
                        assert(records@[i] == later[i - 1]);
                    }
                }
                assert forall|written: Seq<Seq<u8>>, last: Seq<u8>, cut: int|
                    lengths_fit(written) && last.len() <= usize::MAX && 0 <= cut < framed(last).len()
                        && raw@ == #[trigger] journal_cut_short(written, last, cut) implies records_of(
                        raw@,
                    ) == written by {
                    if written.len() > 0 {
                        let later = journal_cut_short(written.skip(1), last, cut);
                        assert(tail@ == later);
                        assert(records_of(tail@) == written.skip(1));
                        assert(written =~= seq![written[0]] + written.skip(1));
                    }
                }
            }
            records
        },
    }
}

/// A journal with one more framed record after it is the journal of all
/// its records: appending a report extends the journal, and reading it
/// back with [`split_records`] gives the records before it and then the new
/// one.
pub proof fn lemma_journal_push(records: Seq<Seq<u8>>, record: Seq<u8>)
    ensures
        journal(records) + framed(record) == journal(records.push(record)),
        lengths_fit(records) && record.len() <= usize::MAX ==> lengths_fit(records.push(record)),
    decreases records.len(),
{
    if records.len() == 0 {
        assert(records.push(record).skip(1) =~= Seq::<Seq<u8>>::empty());
        assert(journal(records.push(record).skip(1)) == Seq::<u8>::empty());
        assert(records.push(record)[0] == record);
        assert(journal(records) == Seq::<u8>::empty());
        assert(journal(records.push(record)) =~= framed(record) + Seq::<u8>::empty());
    } else {
        lemma_journal_push(records.skip(1), record);
        assert(records.push(record).skip(1) =~= records.skip(1).push(record));
        assert(records.push(record)[0] == records[0]);
        assert(journal(records) + framed(record) =~= framed(records[0]) + (journal(records.skip(1))
            + framed(record)));
    }
    if lengths_fit(records) && record.len() <= usize::MAX {
        assert forall|i: int| 0 <= i < records.push(record).len() implies (#[trigger] records.push(
            record,
        )[i]).len() <= usize::MAX by {
            if i < records.len() {
                assert(records.push(record)[i] == records[i]);
            }
        }
    }
}

/// The contents of a list of records.
pub open spec fn contents(records: Seq<Vec<u8>>) -> Seq<Seq<u8>> {
    records.map_values(|record: Vec<u8>| record@)
}

/// The bytes of a journal holding `records`, oldest first: each framed,
/// laid end to end. [`split_records`] reads them back as `records`.
pub fn journal_bytes(records: &Vec<Vec<u8>>) -> (bytes: Vec<u8>)
    ensures
        bytes@ == journal(contents(records@)),
        lengths_fit(contents(records@)),
{
    let mut bytes: Vec<u8> = Vec::new();
    let mut i: usize = 0;
    assert(contents(records@).take(0) =~= Seq::<Seq<u8>>::empty());
    while i < records.len()
        invariant
            i <= records@.len(),
            bytes@ == journal(contents(records@).take(i as int)),
        decreases records@.len() - i,
    {
        let mut next = frame(records[i].as_slice());
        proof {
            let done = contents(records@).take(i as int);
            lemma_journal_push(done, records@[i as int]@);
            assert(contents(records@).take(i + 1) =~= done.push(records@[i as int]@));
        }
        bytes.append(&mut next);
        i = i + 1;
    }
    assert(contents(records@).take(i as int) =~= contents(records@));
    proof {
        assert forall|k: int| 0 <= k < contents(records@).len() implies (#[trigger] contents(
            records@,
        )[k]).len() <= usize::MAX by {
            assert(contents(records@)[k] == records@[k]@);
            assert(records@[k]@.len() == records@[k].len());
        }
    }
    bytes
}

/// How many reports survive trimming a journal of `count`: the newest half,
/// rounded down.
pub open spec fn kept(count: nat) -> nat {
    count / 2
}

/// Whether a journal of `size` bytes has outgrown `limit_bytes`; a limit of
/// zero means no limit.
pub fn over_limit(limit_bytes: u64, size: u64) -> (over: bool)
    ensures
        over == (limit_bytes != 0 && size > limit_bytes),
{
    limit_bytes != 0 && size > limit_bytes
}

/// The reports a full journal keeps: the newest half, oldest of them first.
pub fn newest_half<T>(pending: Vec<T>) -> (kept_reports: Vec<T>)
    ensures
        kept_reports@ == pending@.skip(pending@.len() - kept(pending@.len())),
{
    let before = pending.len();
    let keep = before / 2;
    let mut pending = pending;
    let kept_reports = pending.split_off(before - keep);
    kept_reports
}

/// Reports held on disk until the server takes them: where the journal lives,
/// and the size it may grow to (zero for no limit).
#[derive(Debug, Clone)]
pub struct ReportBuffer {
    path: String,
    limit_bytes: u64,
}

impl ReportBuffer {
    pub closed spec fn location(&self) -> Seq<char> {
        self.path@
    }

    pub closed spec fn limit(&self) -> u64 {
        self.limit_bytes
    }

    /// A buffer backed by `path`, holding at most `limit_bytes`.
    pub fn new(path: String, limit_bytes: u64) -> (buffer: ReportBuffer)
        ensures
            buffer.location() == path@,
            buffer.limit() == limit_bytes,
    {
        ReportBuffer { path, limit_bytes }
    }

    /// Where the journal lives.
    pub fn path(&self) -> (path: &str)
        ensures
            path@ == self.location(),
    {
        self.path.as_str()
    }

    /// The size the journal may grow to, in bytes; zero for no limit.
    pub fn limit_bytes(&self) -> (limit: u64)
        ensures
            limit == self.limit(),
    {
        self.limit_bytes
    }

    /// Whether a journal of `size` bytes must be trimmed.
    pub fn needs_trimming(&self, size: u64) -> (over: bool)
        ensures
            over == (self.limit() != 0 && size > self.limit()),
    {
        over_limit(self.limit_bytes, size)
    }
}

} // verus!
