//! The decisions of the target supervisor: which arguments the target gets,
//! and how its wait status becomes an `ExitStatus`.

use crate::errors::ExitStatus;
use vstd::prelude::*;
use vstd::string::StringExecFns;

verus! {

/// The text that `String::from_utf8_lossy` makes of a byte string.
pub uninterp spec fn lossy_utf8(b: Seq<u8>) -> Seq<char>;

/// Relies on `String::from_utf8_lossy`: each invalid sequence becomes
/// U+FFFD, valid UTF-8 comes back as the text it encodes, and the result
/// depends on the bytes alone.
#[verifier::external_body]
fn lossy_string(b: &[u8]) -> (r: String)
    ensures
        r@ == lossy_utf8(b@),
        b@.len() == 0 ==> r@.len() == 0,
        vstd::utf8::valid_utf8(b@) ==> r@ == vstd::utf8::decode_utf8(b@),
{
    String::from_utf8_lossy(b).into_owned()
}

/// The pieces of `s` between occurrences of `sep`; there is always one more
/// piece than there are separators.
pub open spec fn split_on<A>(s: Seq<A>, sep: A) -> Seq<Seq<A>>
    decreases s.len(),
{
    if s.len() == 0 {
        seq![Seq::empty()]
    } else {
        let prev = split_on(s.drop_last(), sep);
        if s.last() == sep {
            prev.push(Seq::empty())
        } else {
            prev.update(prev.len() - 1, prev.last().push(s.last()))
        }
    }
}

/// The pieces of `s` between ASCII spaces.
pub open spec fn split_spaces(s: Seq<u8>) -> Seq<Seq<u8>> {
    split_on(s, 0x20u8)
}

pub proof fn lemma_split_nonempty<A>(s: Seq<A>, sep: A)
    ensures
        split_on(s, sep).len() >= 1,
    decreases s.len(),
{
    if s.len() > 0 {
        lemma_split_nonempty(s.drop_last(), sep);
    }
}

pub open spec fn strings_view(v: Seq<String>) -> Seq<Seq<char>> {
    v.map_values(|s: String| s@)
}

/// Splits bytes on ASCII spaces.
pub fn split_on_spaces(s: &[u8]) -> (r: Vec<Vec<u8>>)
    ensures
        r@.map_values(|p: Vec<u8>| p@) == split_spaces(s@),
{
    let mut pieces: Vec<Vec<u8>> = Vec::new();
    let mut cur: Vec<u8> = Vec::new();
    let mut i: usize = 0;
    while i < s.len()
        invariant
            i <= s@.len(),
            pieces@.map_values(|p: Vec<u8>| p@).push(cur@) == split_spaces(s@.subrange(0, i as int)),
        decreases s.len() - i,
    {
        let ghost prefix = s@.subrange(0, i + 1);
        proof {
            assert(prefix.drop_last() =~= s@.subrange(0, i as int));
            lemma_split_nonempty(prefix.drop_last(), 0x20u8);
        }
        if s[i] == 0x20 {
            pieces.push(cur);
            cur = Vec::new();
            assert(pieces@.map_values(|p: Vec<u8>| p@).push(cur@) =~= split_spaces(prefix));
        } else {
            let ghost before = pieces@.map_values(|p: Vec<u8>| p@).push(cur@);
            cur.push(s[i]);
            assert(pieces@.map_values(|p: Vec<u8>| p@).push(cur@) =~= before.update(
                before.len() - 1,
                before.last().push(s@[i as int]),
            ));
        }
        i = i + 1;
    }
    pieces.push(cur);
    assert(s@.subrange(0, i as int) =~= s@);
    pieces
}

/// The arguments of an argv run: the configured arguments, then each
/// space-separated piece of the fuzz bytes as lossy UTF-8.
pub fn argv_from_bytes(base: &Vec<String>, fuzz: &[u8]) -> (r: Vec<String>)
    ensures
        strings_view(r@) == strings_view(base@) + split_spaces(fuzz@).map_values(
            |p: Seq<u8>| lossy_utf8(p),
        ),
        fuzz@.len() == 0 ==> r@.len() == base@.len() + 1 && r@[base@.len() as int]@.len() == 0,
        forall|j: int|
            0 <= j < split_spaces(fuzz@).len() && vstd::utf8::valid_utf8(
                #[trigger] split_spaces(fuzz@)[j],
            ) ==> r@[base@.len() + j]@ == vstd::utf8::decode_utf8(split_spaces(fuzz@)[j]),
{
    let pieces = split_on_spaces(fuzz);
    let mut args: Vec<String> = Vec::new();
    let mut k: usize = 0;
    while k < base.len()
        invariant
            k <= base@.len(),
            args@.len() == k,
            forall|i: int| 0 <= i < k ==> (#[trigger] args@[i])@ == base@[i]@,
        decreases base.len() - k,
    {
        args.push(base[k].clone());
        k = k + 1;
    }
    assert(strings_view(args@) =~= strings_view(base@));
    let ghost split = split_spaces(fuzz@);
    let mut j: usize = 0;
    let ghost nb: int = base@.len() as int;
    while j < pieces.len()
        invariant
            j <= pieces@.len(),
            nb == base@.len(),
            pieces@.map_values(|p: Vec<u8>| p@) == split,
            args@.len() == nb + j,
            forall|i: int| 0 <= i < nb ==> (#[trigger] args@[i])@ == base@[i]@,
            forall|i: int| 0 <= i < j ==> (#[trigger] args@[nb + i])@ == lossy_utf8(split[i]),
            forall|i: int| 0 <= i < j && split[i].len() == 0 ==> (#[trigger] args@[nb + i])@.len() == 0,
            forall|i: int|
                0 <= i < j && vstd::utf8::valid_utf8(split[i]) ==> (#[trigger] args@[nb + i])@
                    == vstd::utf8::decode_utf8(split[i]),
        decreases pieces.len() - j,
    {
        let piece = lossy_string(pieces[j].as_slice());
        assert(pieces@[j as int]@ == split[j as int]);
        args.push(piece);
        assert(args@[nb + j]@ == lossy_utf8(split[j as int]));
        j = j + 1;
    }
    proof {
        if fuzz@.len() == 0 {
            assert(split == seq![Seq::<u8>::empty()]);
            assert(pieces@.map_values(|p: Vec<u8>| p@).len() == pieces@.len());
            assert(j == 1);
            assert(split[0].len() == 0);
            assert(args@[nb + 0int]@.len() == 0);
        }
    }
    assert(strings_view(args@) =~= strings_view(base@) + split.map_values(
        |p: Seq<u8>| lossy_utf8(p),
    )) by {
        assert forall|i: int| nb <= i < args@.len() implies strings_view(args@)[i] == split.map_values(
            |p: Seq<u8>| lossy_utf8(p),
        )[i - nb] by {
            assert(args@[nb + (i - nb)]@ == lossy_utf8(split[i - nb]));
        }
    }
    args
}

/// The arguments of a file run: the configured arguments, then the path.
pub fn file_arguments(base: &Vec<String>, path: &String) -> (r: Vec<String>)
    ensures
        strings_view(r@) == strings_view(base@).push(path@),
{
    let mut args: Vec<String> = Vec::new();
    let mut k: usize = 0;
    while k < base.len()
        invariant
            k <= base@.len(),
            args@.len() == k,
            forall|i: int| 0 <= i < k ==> (#[trigger] args@[i])@ == base@[i]@,
        decreases base.len() - k,
    {
        args.push(base[k].clone());
        k = k + 1;
    }
    assert(strings_view(args@) =~= strings_view(base@));
    let ghost before = args@;
    args.push(path.clone());
    assert(strings_view(args@) =~= strings_view(before).push(path@));
    args
}

/// The termination of a child that ended within its deadline: death by a
/// signal wins over an exit code; with neither, the end is unknown.
pub fn exit_status_from(signal: Option<i32>, code: Option<i32>) -> (r: ExitStatus)
    ensures
        signal matches Some(s) ==> r == ExitStatus::Signal(s),
        signal is None && code is Some ==> r == ExitStatus::ExitCode(code->Some_0),
        signal is None && code is None ==> (r matches ExitStatus::Error(m) && m@
            == "unknown termination"@),
{
    match signal {
        Some(s) => ExitStatus::Signal(s),
        None => match code {
            Some(c) => ExitStatus::ExitCode(c),
            None => ExitStatus::Error(String::from_str("unknown termination")),
        },
    }
}

} // verus!
