//! Extraction of the printable strings embedded in a byte buffer.

use vstd::prelude::*;
use crate::classify::{
    byte_is_control, byte_is_graphic, byte_is_whitespace, is_control, is_graphic, is_whitespace,
};
use crate::text::{all_ascii, ascii_chars, decode_text, lemma_ascii_decodes};
use vstd::string::StringExecFns;
use vstd::utf8::{decode_utf8, decode_utf8_encode_utf8, encode_utf8, valid_utf8};

verus! {

/// A byte that becomes part of a run: printable or whitespace, and no control
/// character (so, of the whitespace bytes, only the space).
pub open spec fn is_run_byte(byte: u8) -> bool {
    !is_control(byte) && (is_graphic(byte) || is_whitespace(byte))
}

/// The run still open after scanning `data`: the run bytes seen since the last
/// control byte. Bytes that are neither control nor run bytes leave it as it is.
pub open spec fn open_run(data: Seq<u8>) -> Seq<u8>
    decreases data.len(),
{
    if data.len() == 0 {
        Seq::empty()
    } else if is_control(data.last()) {
        Seq::empty()
    } else if is_run_byte(data.last()) {
        open_run(data.drop_last()).push(data.last())
    } else {
        open_run(data.drop_last())
    }
}

/// The runs closed by a control byte while scanning `data`, in order of
/// discovery. Empty runs are not recorded.
pub open spec fn closed_runs(data: Seq<u8>) -> Seq<Seq<u8>>
    decreases data.len(),
{
    if data.len() == 0 {
        Seq::empty()
    } else if is_control(data.last()) && open_run(data.drop_last()).len() > 0 {
        closed_runs(data.drop_last()).push(open_run(data.drop_last()))
    } else {
        closed_runs(data.drop_last())
    }
}

/// All runs of `data`: those closed by a control byte, then the one still
/// open at the end of input, if it is not empty.
pub open spec fn runs(data: Seq<u8>) -> Seq<Seq<u8>> {
    if open_run(data).len() > 0 {
        closed_runs(data).push(open_run(data))
    } else {
        closed_runs(data)
    }
}

/// The texts of the extracted strings, as character sequences.
pub open spec fn texts(found: Seq<String>) -> Seq<Seq<char>> {
    Seq::new(found.len(), |i: int| found[i]@)
}

/// The character sequences that the runs of `data` decode to.
pub open spec fn run_texts(data: Seq<u8>) -> Seq<Seq<char>> {
    Seq::new(runs(data).len(), |i: int| ascii_chars(runs(data)[i]))
}

/// An open run holds run bytes only, hence ASCII only.
pub proof fn lemma_open_run_ascii(data: Seq<u8>)
    ensures
        all_ascii(open_run(data)),
        forall|i: int| 0 <= i < open_run(data).len() ==> is_run_byte(#[trigger] open_run(data)[i]),
    decreases data.len(),
{
    if data.len() > 0 {
        lemma_open_run_ascii(data.drop_last());
    }
}

/// A run: at least one byte, run bytes only.
pub open spec fn is_run(run: Seq<u8>) -> bool {
    run.len() > 0 && forall|i: int| 0 <= i < run.len() ==> is_run_byte(#[trigger] run[i])
}

/// Every extracted run is non-empty and made of run bytes.
pub proof fn lemma_runs_are_runs(data: Seq<u8>)
    ensures
        forall|k: int| 0 <= k < closed_runs(data).len() ==> is_run(#[trigger] closed_runs(data)[k]),
        forall|k: int| 0 <= k < runs(data).len() ==> is_run(#[trigger] runs(data)[k]),
    decreases data.len(),
{
    lemma_open_run_ascii(data);
    if data.len() > 0 {
        let front = data.drop_last();
        lemma_runs_are_runs(front);
        lemma_open_run_ascii(front);
        assert forall|k: int| 0 <= k < closed_runs(data).len() implies is_run(
            #[trigger] closed_runs(data)[k],
        ) by {
            if k < closed_runs(front).len() {
                assert(closed_runs(data)[k] == closed_runs(front)[k]);
            } else {
                assert(closed_runs(data)[k] == open_run(front));
            }
        }
    }
    assert forall|k: int| 0 <= k < runs(data).len() implies is_run(#[trigger] runs(data)[k]) by {
        if k < closed_runs(data).len() {
            assert(runs(data)[k] == closed_runs(data)[k]);
        } else {
            assert(runs(data)[k] == open_run(data));
        }
    }
}

/// The runs one after the other, with nothing between them.
pub open spec fn concatenated(parts: Seq<Seq<u8>>) -> Seq<u8>
    decreases parts.len(),
{
    if parts.len() == 0 {
        Seq::empty()
    } else {
        concatenated(parts.drop_last()) + parts.last()
    }
}

/// The runs hold the run bytes of the buffer, all of them, in their order,
/// and nothing else.
pub proof fn lemma_runs_hold_the_run_bytes(data: Seq<u8>)
    ensures
        concatenated(closed_runs(data)) + open_run(data) == data.filter(|b: u8| is_run_byte(b)),
        concatenated(runs(data)) == data.filter(|b: u8| is_run_byte(b)),
    decreases data.len(),
{
    reveal(Seq::filter);
    let keep = |b: u8| is_run_byte(b);
    if data.len() > 0 {
        let front = data.drop_last();
        lemma_runs_hold_the_run_bytes(front);
        if is_control(data.last()) && open_run(front).len() > 0 {
            assert(closed_runs(data).drop_last() =~= closed_runs(front));
        }
        assert(concatenated(closed_runs(data)) + open_run(data) =~= data.filter(keep));
    } else {
        assert(concatenated(closed_runs(data)) + open_run(data) =~= data.filter(keep));
    }
    if open_run(data).len() > 0 {
        assert(runs(data).drop_last() =~= closed_runs(data));
    } else {
        assert(concatenated(closed_runs(data)) + open_run(data) =~= concatenated(
            closed_runs(data),
        ));
    }
}

/// A buffer of control bytes alone holds no string.
pub proof fn lemma_all_control_yields_nothing(data: Seq<u8>)
    requires
        forall|i: int| 0 <= i < data.len() ==> is_control(#[trigger] data[i]),
    ensures
        runs(data).len() == 0,
        run_texts(data) =~= Seq::<Seq<char>>::empty(),
{
    lemma_no_run_byte_yields_nothing(data);
}

/// A buffer without any run byte holds no string.
pub proof fn lemma_no_run_byte_yields_nothing(data: Seq<u8>)
    requires
        forall|i: int| 0 <= i < data.len() ==> !is_run_byte(#[trigger] data[i]),
    ensures
        open_run(data).len() == 0,
        closed_runs(data).len() == 0,
        runs(data).len() == 0,
    decreases data.len(),
{
    if data.len() > 0 {
        let front = data.drop_last();
        assert forall|i: int| 0 <= i < front.len() implies !is_run_byte(#[trigger] front[i]) by {
            assert(front[i] == data[i]);
        }
        lemma_no_run_byte_yields_nothing(front);
        assert(!is_run_byte(data[data.len() - 1]));
    }
}

/// Closes the run `current`: decodes it and appends the text to `found`.
/// An empty run adds nothing; one that is not well-formed UTF-8 is dropped.
pub fn close_run(found: &mut Vec<String>, current: Vec<u8>)
    ensures
        current@.len() > 0 && valid_utf8(current@) ==> texts(final(found)@) == texts(
            old(found)@,
        ).push(decode_utf8(current@)),
        current@.len() == 0 || !valid_utf8(current@) ==> final(found)@ == old(found)@,
{
    if current.len() > 0 {
        match decode_text(current) {
            Some(s) => {
                found.push(s);
                assert(texts(found@) =~= texts(old(found)@).push(s@));
            },
            None => {},
        }
    }
}

/// Scans `data` from first to last byte and returns its maximal runs of
/// printable and whitespace bytes as text, in order of discovery.
pub fn extract_strings(data: &[u8]) -> (found: Vec<String>)
    ensures
        texts(found@) == run_texts(data@),
{
    let mut strings: Vec<String> = Vec::new();
    let mut current: Vec<u8> = Vec::new();
    let mut i: usize = 0;
    assert(texts(strings@) =~= Seq::<Seq<char>>::empty());
    while i < data.len()
        invariant
            i <= data.len(),
            current@ == open_run(data@.take(i as int)),
            texts(strings@).len() == closed_runs(data@.take(i as int)).len(),
            forall|k: int|
                0 <= k < texts(strings@).len() ==> #[trigger] texts(strings@)[k] == ascii_chars(
                    closed_runs(data@.take(i as int))[k],
                ),
        decreases data.len() - i,
    {
        let byte = data[i];
        let ghost seen = data@.take(i as int);
        let ghost next = data@.take(i + 1);
        proof {
            assert(next.drop_last() =~= seen);
            assert(next.last() == byte);
            lemma_open_run_ascii(seen);
            lemma_ascii_decodes(current@);
        }
        if byte_is_control(byte) {
            let ghost before = texts(strings@);
            close_run(&mut strings, current);
            current = Vec::new();
            proof {
                assert(current@ =~= open_run(next));
                if open_run(seen).len() > 0 {
                    assert(texts(strings@) == before.push(ascii_chars(open_run(seen))));
                }
            }
        } else if byte_is_graphic(byte) || byte_is_whitespace(byte) {
            current.push(byte);
        }
        i += 1;
    }
    proof {
        assert(data@.take(i as int) =~= data@);
        lemma_open_run_ascii(data@);
        lemma_ascii_decodes(current@);
    }
    let ghost before = texts(strings@);
    close_run(&mut strings, current);
    proof {
        if open_run(data@).len() > 0 {
            assert(texts(strings@) == before.push(ascii_chars(open_run(data@))));
        }
        assert(texts(strings@) =~= run_texts(data@));
    }
    strings
}

/// The lines joined by single line feeds: none before the first, none after the last.
pub open spec fn joined(lines: Seq<Seq<u8>>) -> Seq<u8>
    decreases lines.len(),
{
    if lines.len() == 0 {
        Seq::empty()
    } else if lines.len() == 1 {
        lines[0]
    } else {
        joined(lines.drop_last()) + seq![10u8] + lines.last()
    }
}

/// The UTF-8 bytes of each string.
pub open spec fn encoded(found: Seq<String>) -> Seq<Seq<u8>> {
    Seq::new(found.len(), |i: int| encode_utf8(found[i]@))
}

/// Appends `bytes` to `out`.
pub fn append_bytes(out: &mut Vec<u8>, bytes: &[u8])
    ensures
        final(out)@ == old(out)@ + bytes@,
{
    let mut i: usize = 0;
    while i < bytes.len()
        invariant
            i <= bytes.len(),
            out@ == old(out)@ + bytes@.take(i as int),
        decreases bytes.len() - i,
    {
        out.push(bytes[i]);
        i += 1;
        assert(out@ =~= old(out)@ + bytes@.take(i as int));
    }
    assert(bytes@.take(i as int) =~= bytes@);
}

/// The content of an export file: the strings as UTF-8, one per line, with
/// a single line feed between two of them.
pub fn join_lines(found: &Vec<String>) -> (res: Vec<u8>)
    ensures
        res@ == joined(encoded(found@)),
{
    let mut out: Vec<u8> = Vec::new();
    let mut i: usize = 0;
    while i < found.len()
        invariant
            i <= found.len(),
            out@ == joined(encoded(found@).take(i as int)),
        decreases found.len() - i,
    {
        if i > 0 {
            out.push(10);
        }
        append_bytes(&mut out, found[i].as_str().as_bytes());
        proof {
            let before = encoded(found@).take(i as int);
            let now = encoded(found@).take(i + 1);
            assert(now.drop_last() =~= before);
            assert(now.last() == encode_utf8(found@[i as int]@));
            assert(out@ =~= joined(now));
        }
        i += 1;
    }
    assert(encoded(found@).take(i as int) =~= encoded(found@));
    out
}

/// The strings of a buffer encode back to its runs, byte for byte.
pub proof fn lemma_texts_encode_to_runs(data: Seq<u8>, found: Seq<String>)
    requires
        texts(found) == run_texts(data),
    ensures
        encoded(found) == runs(data),
{
    lemma_runs_are_runs(data);
    assert(texts(found).len() == found.len());
    assert(run_texts(data).len() == runs(data).len());
    assert forall|k: int| 0 <= k < runs(data).len() implies #[trigger] encoded(found)[k] == runs(
        data,
    )[k] by {
        let run = runs(data)[k];
        assert(texts(found)[k] == found[k]@);
        assert(run_texts(data)[k] == ascii_chars(run));
        assert(is_run(run));
        assert(all_ascii(run)) by {
            assert forall|i: int| 0 <= i < run.len() implies #[trigger] run[i] < 128 by {
                assert(is_run_byte(run[i]));
            }
        }
        lemma_ascii_decodes(run);
        decode_utf8_encode_utf8(run);
    }
    assert(encoded(found) =~= runs(data));
}

/// The content of the export file of a buffer: its runs, in order, joined
/// by single line feeds.
pub fn export_text(data: &[u8]) -> (res: Vec<u8>)
    ensures
        res@ == joined(runs(data@)),
{
    let found = extract_strings(data);
    proof {
        lemma_texts_encode_to_runs(data@, found@);
    }
    join_lines(&found)
}

/// The name of the export file for an input path: the whole path, extension
/// included, with `_export.txt` appended.
pub fn export_path(input_path: &str) -> (res: String)
    ensures
        res@ == input_path@ + "_export.txt"@,
{
    let mut path = input_path.to_owned();
    path.append("_export.txt");
    path
}

} // verus!
