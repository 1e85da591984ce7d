//! Planning the fragments of an ingested media: numbering the segments,
//! naming encrypted payloads and assigning retrieval URLs.
use vstd::prelude::*;
use crate::model::NewFragment;
use crate::crypto::{age_plaintext, is_identity_text, seal, Sealed};
use vstd::multiset::Multiset;

verus! {

/// An ingestion request.
#[derive(Debug, Clone, PartialEq, Eq)]
pub struct AddMediaCommand {
    /// The media file.
    pub input: String,
    /// The URL prefix under which the fragments will be served.
    pub retrieval_url: Option<String>,
    /// Encrypt each fragment to a fresh key.
    pub encrypted: bool,
    /// Segment length in seconds; 0 keeps the media whole.
    pub fragment: u32,
    /// Where fragments are written; by default beside the input.
    pub output_dir: Option<String>,
}

/// `f` is a fragment of a media not stored yet, named `name`, numbered `number`.
pub open spec fn is_fragment_of(f: NewFragment, name: String, number: Option<i32>) -> bool {
    &&& f.media_id == 0
    &&& f.filename == name
    &&& f.fragment_number == number
    &&& f.encryption_key is None
    &&& f.retrieval_url is None
}

/// The fragment that stands for a whole, unsegmented media file.
pub fn whole_fragment(filename: String) -> (r: NewFragment)
    ensures
        is_fragment_of(r, filename, None),
{
    NewFragment {
        media_id: 0,
        filename,
        fragment_number: None,
        encryption_key: None,
        retrieval_url: None,
    }
}

/// The fragments of a segmented media, one per segment file, numbered from
/// 0 in the order given. The media is not known yet: `media_id` is 0.
fn number_fragments(filenames: Vec<String>) -> (r: Vec<NewFragment>)
    requires
        filenames@.len() <= i32::MAX,
    ensures
        r@.len() == filenames@.len(),
        forall|k: int|
            0 <= k < r@.len() ==> is_fragment_of(#[trigger] r@[k], filenames@[k], Some(k as i32)),
{
    let ghost all = filenames@;
    let n = filenames.len();
    let mut rest = filenames;
    let mut out: Vec<NewFragment> = Vec::new();
    let mut k: usize = 0;
    while k < n
        invariant
            n == all.len(),
            n <= i32::MAX,
            k <= n,
            rest@ == all.subrange(k as int, n as int),
            out@.len() == k,
            forall|t: int| 0 <= t < k ==> is_fragment_of(#[trigger] out@[t], all[t], Some(t as i32)),
        decreases n - k,
    {
        let name = rest.remove(0);
        assert(rest@ =~= all.subrange(k + 1, n as int));
        out.push(
            NewFragment {
                media_id: 0,
                filename: name,
                fragment_number: Some(k as i32),
                encryption_key: None,
                retrieval_url: None,
            },
        );
        k = k + 1;
    }
    out
}

/// Index of the last `.` of `s`, if there is one.
pub open spec fn last_dot(s: Seq<char>) -> Option<int>
    decreases s.len(),
{
    if s.len() == 0 {
        None
    } else if s.last() == '.' {
        Some(s.len() - 1)
    } else {
        last_dot(s.drop_last())
    }
}

/// A file name with its extension replaced by `ext`, as a path's
/// `set_extension` does: the extension is what follows the last `.`, unless
/// that `.` begins the name.
pub open spec fn with_extension(name: Seq<char>, ext: Seq<char>) -> Seq<char> {
    match last_dot(name) {
        Some(p) if p > 0 => name.subrange(0, p) + seq!['.'] + ext,
        _ => name + seq!['.'] + ext,
    }
}

pub proof fn lemma_last_dot_bounds(s: Seq<char>)
    ensures
        match last_dot(s) {
            Some(p) => 0 <= p < s.len() && s[p] == '.',
            None => true,
        },
    decreases s.len(),
{
    if s.len() > 0 {
        lemma_last_dot_bounds(s.drop_last());
    }
}

pub fn replace_extension(name: &str, ext: &str) -> (r: String)
    ensures
        r@ == with_extension(name@, ext@),
{
    let n = name.unicode_len();
    let mut i: usize = n;
    let mut dot: Option<usize> = None;
    assert(name@.subrange(0, n as int) =~= name@);
    while i > 0
        invariant
            n == name@.len(),
            i <= n,
            dot is None ==> last_dot(name@) == last_dot(name@.subrange(0, i as int)),
            dot is Some ==> last_dot(name@) == Some(dot->0 as int),
        decreases i,
    {
        if dot.is_none() {
            assert(name@.subrange(0, i as int).drop_last() =~= name@.subrange(0, i - 1));
            if name.get_char(i - 1) == '.' {
                dot = Some(i - 1);
            }
        }
        i = i - 1;
    }
    proof {
        lemma_last_dot_bounds(name@);
        if dot is None {
            assert(name@.subrange(0, 0) =~= Seq::<char>::empty());
        }
    }
    let stem = match dot {
        Some(p) => if p > 0 {
            name.substring_char(0, p)
        } else {
            name
        },
        None => name,
    };
    let mut out = stem.to_owned();
    out.append(".");
    out.append(ext);
    proof {
        reveal_strlit(".");
    }
    assert(out@ =~= with_extension(name@, ext@));
    out
}

/// The name of an encrypted payload: the fragment's name with extension `age`.
pub fn sealed_filename(name: &str) -> (r: String)
    ensures
        r@ == with_extension(name@, "age"@),
{
    replace_extension(name, "age")
}

/// A fragment whose payload was encrypted to the key `key_text`.
pub fn seal_fragment(f: NewFragment, key_text: String) -> (r: NewFragment)
    ensures
        r.media_id == f.media_id,
        r.filename@ == with_extension(f.filename@, "age"@),
        r.fragment_number == f.fragment_number,
        r.encryption_key == Some(key_text),
        r.retrieval_url == f.retrieval_url,
{
    let filename = sealed_filename(f.filename.as_str());
    NewFragment {
        media_id: f.media_id,
        filename,
        fragment_number: f.fragment_number,
        encryption_key: Some(key_text),
        retrieval_url: f.retrieval_url,
    }
}

/// The URL of `filename` under the prefix `base`.
pub open spec fn url_of(base: Seq<char>, filename: Seq<char>) -> Seq<char> {
    base + seq!['/'] + filename
}

pub fn retrieval_url_for(base: &str, filename: &str) -> (r: String)
    ensures
        r@ == url_of(base@, filename@),
{
    let mut out = base.to_owned();
    out.append("/");
    out.append(filename);
    proof {
        reveal_strlit("/");
    }
    assert(out@ =~= url_of(base@, filename@));
    out
}

/// Gives every fragment the URL of its file under `base`; nothing else changes.
pub fn assign_retrieval_urls(fragments: &mut Vec<NewFragment>, base: &str)
    ensures
        final(fragments)@.len() == old(fragments)@.len(),
        forall|k: int|
            0 <= k < final(fragments)@.len() ==> {
                let f = #[trigger] final(fragments)@[k];
                let o = old(fragments)@[k];
                &&& f.media_id == o.media_id
                &&& f.filename == o.filename
                &&& f.fragment_number == o.fragment_number
                &&& f.encryption_key == o.encryption_key
                &&& f.retrieval_url is Some
                &&& f.retrieval_url->0@ == url_of(base@, o.filename@)
            },
{
    let n = fragments.len();
    let mut k: usize = 0;
    while k < n
        invariant
            n == old(fragments)@.len(),
            fragments@.len() == n,
            k <= n,
            forall|t: int|
                0 <= t < k ==> {
                    let f = #[trigger] fragments@[t];
                    let o = old(fragments)@[t];
                    &&& f.media_id == o.media_id
                    &&& f.filename == o.filename
                    &&& f.fragment_number == o.fragment_number
                    &&& f.encryption_key == o.encryption_key
                    &&& f.retrieval_url is Some
                    &&& f.retrieval_url->0@ == url_of(base@, o.filename@)
                },
            forall|t: int| k <= t < n ==> #[trigger] fragments@[t] == old(fragments)@[t],
        decreases n - k,
    {
        let f = fragments.remove(k);
        let url = retrieval_url_for(base, f.filename.as_str());
        let updated = NewFragment {
            media_id: f.media_id,
            filename: f.filename,
            fragment_number: f.fragment_number,
            encryption_key: f.encryption_key,
            retrieval_url: Some(url),
        };
        fragments.insert(k, updated);
        k = k + 1;
    }
}

/// Lexical order of texts by code point, a prefix first.
pub open spec fn lex_le(a: Seq<char>, b: Seq<char>) -> bool
    decreases a.len(),
{
    if a.len() == 0 {
        true
    } else if b.len() == 0 {
        false
    } else if a[0] != b[0] {
        a[0] < b[0]
    } else {
        lex_le(a.drop_first(), b.drop_first())
    }
}

pub proof fn lemma_lex_total(a: Seq<char>, b: Seq<char>)
    ensures
        lex_le(a, b) || lex_le(b, a),
    decreases a.len(),
{
    if a.len() > 0 && b.len() > 0 && a[0] == b[0] {
        lemma_lex_total(a.drop_first(), b.drop_first());
    }
}

pub proof fn lemma_lex_trans(a: Seq<char>, b: Seq<char>, c: Seq<char>)
    requires
        lex_le(a, b),
        lex_le(b, c),
    ensures
        lex_le(a, c),
    decreases a.len(),
{
    if a.len() > 0 && b.len() > 0 && c.len() > 0 && a[0] == b[0] && b[0] == c[0] {
        lemma_lex_trans(a.drop_first(), b.drop_first(), c.drop_first());
    }
}

pub fn lex_less_eq(a: &str, b: &str) -> (r: bool)
    ensures
        r == lex_le(a@, b@),
{
    let na = a.unicode_len();
    let nb = b.unicode_len();
    let mut i: usize = 0;
    assert(a@.subrange(0, na as int) =~= a@);
    assert(b@.subrange(0, nb as int) =~= b@);
    while i < na && i < nb
        invariant
            na == a@.len(),
            nb == b@.len(),
            i <= na,
            i <= nb,
            lex_le(a@, b@) == lex_le(a@.subrange(i as int, na as int), b@.subrange(i as int, nb as int)),
        decreases na - i,
    {
        let ca = a.get_char(i);
        let cb = b.get_char(i);
        assert(a@.subrange(i as int, na as int).drop_first() =~= a@.subrange(i + 1, na as int));
        assert(b@.subrange(i as int, nb as int).drop_first() =~= b@.subrange(i + 1, nb as int));
        if ca != cb {
            return ca < cb;
        }
        i = i + 1;
    }
    i == na
}

pub open spec fn sorted_names(s: Seq<String>) -> bool {
    forall|i: int, j: int| 0 <= i < j < s.len() ==> lex_le(s[i]@, s[j]@)
}

/// The file names in ascending lexical order.
pub fn sort_filenames(names: Vec<String>) -> (r: Vec<String>)
    ensures
        sorted_names(r@),
        r@.to_multiset() == names@.to_multiset(),
{
    broadcast use vstd::seq_lib::group_to_multiset_ensures;
    broadcast use vstd::multiset::group_multiset_axioms;

    let ghost all = names@;
    let mut rest = names;
    let mut out: Vec<String> = Vec::new();
    assert(out@.to_multiset() =~= Multiset::empty());
    while rest.len() > 0
        invariant
            sorted_names(out@),
            out@.to_multiset().add(rest@.to_multiset()) == all.to_multiset(),
        decreases rest@.len(),
    {
        let ghost rest0 = rest@;
        let x = rest.remove(0);
        assert(rest@ == rest0.remove(0));
        proof {
            vstd::seq_lib::to_multiset_remove(rest0, 0);
        }
        let mut p: usize = 0;
        while p < out.len() && !lex_less_eq(x.as_str(), out[p].as_str())
            invariant
                p <= out@.len(),
                forall|i: int| 0 <= i < p ==> lex_le(out@[i]@, x@),
            decreases out@.len() - p,
        {
            proof {
                lemma_lex_total(x@, out@[p as int]@);
            }
            p = p + 1;
        }
        let ghost out0 = out@;
        out.insert(p, x);
        assert(out@ == out0.insert(p as int, x));
        proof {
            vstd::seq_lib::to_multiset_insert(out0, p as int, x);
        }
        assert forall|i: int, j: int| 0 <= i < j < out@.len() implies lex_le(out@[i]@, out@[j]@) by {
            if j == p {
                assert(lex_le(out0[i]@, x@));
            } else if i == p {
                assert(lex_le(x@, out0[p as int]@));
                if j - 1 > p {
                    lemma_lex_trans(x@, out0[p as int]@, out0[j - 1]@);
                }
            } else {
                let i0 = if i < p { i } else { i - 1 };
                let j0 = if j < p { j } else { j - 1 };
                assert(out@[i] == out0[i0]);
                assert(out@[j] == out0[j0]);
            }
        }
        assert(rest0[0] == x);
        assert(rest0.contains(x));
        proof {
            vstd::seq_lib::to_multiset_contains(rest0, x);
        }
        assert(rest0.to_multiset().count(x) > 0);
        assert(out@.to_multiset().add(rest@.to_multiset()) =~= out0.to_multiset().add(
            rest0.to_multiset(),
        ));
    }
    assert(rest@.to_multiset() =~= Multiset::empty());
    assert(out@.to_multiset().add(rest@.to_multiset()) =~= out@.to_multiset());
    out
}

/// More segment files than fragment numbers.
#[derive(Debug, Clone, Copy, PartialEq, Eq, Structural)]
pub struct TooManyFragments;

/// The fragments of a segmented media from its segment files, numbered
/// from 0 in ascending lexical order of their names.
pub fn fragments_of_segments(filenames: Vec<String>) -> (r: Result<
    Vec<NewFragment>,
    TooManyFragments,
>)
    ensures
        r is Err <==> filenames@.len() > i32::MAX,
        r is Ok ==> {
            let v = r->Ok_0@;
            &&& v.len() == filenames@.len()
            &&& forall|i: int, j: int|
                0 <= i < j < v.len() ==> lex_le(#[trigger] v[i].filename@, #[trigger] v[j].filename@)
            &&& forall|k: int|
                0 <= k < v.len() ==> (#[trigger] v[k]).fragment_number == Some(k as i32)
                    && v[k].media_id == 0 && v[k].encryption_key is None && v[k].retrieval_url is None
            &&& v.map_values(|f: NewFragment| f.filename).to_multiset() == filenames@.to_multiset()
        },
{
    if filenames.len() > 2147483647 {
        return Err(TooManyFragments);
    }
    let sorted = sort_filenames(filenames);
    let ghost sv = sorted@;
    proof {
        vstd::seq_lib::to_multiset_len(sv);
        vstd::seq_lib::to_multiset_len(filenames@);
    }
    let r = number_fragments(sorted);
    assert(r@.map_values(|f: NewFragment| f.filename) =~= sv);
    Ok(r)
}

pub open spec fn digit_char(d: nat) -> char {
    ('0' as nat + d) as char
}

/// The decimal text of `n`, without leading zeros.
pub open spec fn decimal(n: nat) -> Seq<char>
    decreases n,
{
    if n < 10 {
        seq![digit_char(n)]
    } else {
        decimal(n / 10).push(digit_char(n % 10))
    }
}

fn digit_text(d: u32) -> (r: &'static str)
    requires
        d < 10,
    ensures
        r@ == seq![digit_char(d as nat)],
{
    match d {
        0 => {
            proof {
                reveal_strlit("0");
            }
            "0"
        },
        1 => {
            proof {
                reveal_strlit("1");
            }
            "1"
        },
        2 => {
            proof {
                reveal_strlit("2");
            }
            "2"
        },
        3 => {
            proof {
                reveal_strlit("3");
            }
            "3"
        },
        4 => {
            proof {
                reveal_strlit("4");
            }
            "4"
        },
        5 => {
            proof {
                reveal_strlit("5");
            }
            "5"
        },
        6 => {
            proof {
                reveal_strlit("6");
            }
            "6"
        },
        7 => {
            proof {
                reveal_strlit("7");
            }
            "7"
        },
        8 => {
            proof {
                reveal_strlit("8");
            }
            "8"
        },
        _ => {
            proof {
                reveal_strlit("9");
            }
            "9"
        },
    }
}

pub fn decimal_text(n: u32) -> (r: String)
    ensures
        r@ == decimal(n as nat),
    decreases n,
{
    if n < 10 {
        digit_text(n).to_owned()
    } else {
        let mut s = decimal_text(n / 10);
        s.append(digit_text(n % 10));
        assert(s@ =~= decimal(n as nat));
        s
    }
}

/// The name pattern of the segment files, numbered with three digits.
pub open spec fn segment_pattern() -> Seq<char> {
    "fragment-%03d.mkv"@
}

/// The segmenter's arguments: cut `input` every `duration` seconds by stream
/// copy, without re-encoding, into numbered files under `output_dir`.
pub open spec fn segment_args_of(input: Seq<char>, output_dir: Seq<char>, duration: u32) -> Seq<
    Seq<char>,
> {
    seq![
        "-hide_banner"@,
        "-loglevel"@,
        "error"@,
        "-stats"@,
        "-y"@,
        "-i"@,
        input,
        "-c:v"@,
        "copy"@,
        "-c:a"@,
        "copy"@,
        "-f"@,
        "segment"@,
        "-segment_time"@,
        decimal(duration as nat),
        "-reset_timestamps"@,
        "1"@,
        output_dir + seq!['/'] + segment_pattern(),
    ]
}

pub fn segment_arguments(input: &str, output_dir: &str, duration: u32) -> (r: Vec<String>)
    ensures
        r@.map_values(|a: String| a@) == segment_args_of(input@, output_dir@, duration),
{
    let mut out = output_dir.to_owned();
    out.append("/");
    out.append("fragment-%03d.mkv");
    proof {
        reveal_strlit("/");
    }
    assert(out@ =~= output_dir@ + seq!['/'] + segment_pattern());
    let r = vec![
        "-hide_banner".to_owned(),
        "-loglevel".to_owned(),
        "error".to_owned(),
        "-stats".to_owned(),
        "-y".to_owned(),
        "-i".to_owned(),
        input.to_owned(),
        "-c:v".to_owned(),
        "copy".to_owned(),
        "-c:a".to_owned(),
        "copy".to_owned(),
        "-f".to_owned(),
        "segment".to_owned(),
        "-segment_time".to_owned(),
        decimal_text(duration),
        "-reset_timestamps".to_owned(),
        "1".to_owned(),
        out,
    ];
    assert(r@.map_values(|a: String| a@) =~= segment_args_of(input@, output_dir@, duration));
    r
}

/// The fragments of an ingestion before encryption and URLs: one per
/// segment file when `cmd.fragment` is positive, else the whole input file.
pub fn plan_fragments(cmd: &AddMediaCommand, input_name: String, segment_files: Vec<String>) -> (r:
    Result<Vec<NewFragment>, TooManyFragments>)
    ensures
        cmd.fragment == 0 ==> r is Ok && r->Ok_0@.len() == 1 && is_fragment_of(
            r->Ok_0@[0],
            input_name,
            None,
        ),
        cmd.fragment > 0 ==> (r is Err <==> segment_files@.len() > i32::MAX),
        cmd.fragment > 0 && r is Ok ==> {
            let v = r->Ok_0@;
            &&& v.len() == segment_files@.len()
            &&& forall|i: int, j: int|
                0 <= i < j < v.len() ==> lex_le(#[trigger] v[i].filename@, #[trigger] v[j].filename@)
            &&& forall|k: int|
                0 <= k < v.len() ==> (#[trigger] v[k]).fragment_number == Some(k as i32)
                    && v[k].media_id == 0 && v[k].encryption_key is None && v[k].retrieval_url is None
            &&& v.map_values(|f: NewFragment| f.filename).to_multiset()
                == segment_files@.to_multiset()
        },
{
    if cmd.fragment > 0 {
        fragments_of_segments(segment_files)
    } else {
        let mut v: Vec<NewFragment> = Vec::new();
        v.push(whole_fragment(input_name));
        Ok(v)
    }
}

/// Encrypts a fragment's payload to a fresh key: the fragment takes the
/// `age` name and the key text, and that key opens the returned ciphertext
/// to `data`.
pub fn encrypt_fragment(f: NewFragment, data: &[u8]) -> (r: (NewFragment, Vec<u8>))
    ensures
        r.0.media_id == f.media_id,
        r.0.filename@ == with_extension(f.filename@, "age"@),
        r.0.fragment_number == f.fragment_number,
        r.0.retrieval_url == f.retrieval_url,
        r.0.encryption_key is Some,
        is_identity_text(r.0.encryption_key->0@),
        age_plaintext(r.0.encryption_key->0@, r.1@) == Some(data@),
{
    match seal(data) {
        Ok(Sealed { ciphertext, key_text }) => (seal_fragment(f, key_text), ciphertext),
        Err(_) => {
            assert(false);
            (f, Vec::new())
        },
    }
}

} // verus!
