//! Transcode command templates: text with `{name}` placeholders, rendered
//! from named values and split on whitespace into an argument vector.
use vstd::prelude::*;

verus! {

/// A piece of a parsed template.
#[derive(Debug, Clone, PartialEq, Eq)]
pub enum Segment {
    /// Literal text.
    Text(String),
    /// A placeholder, by name.
    Key(String),
}

#[derive(Debug, Clone, PartialEq, Eq)]
pub enum TemplateError {
    /// The template text is not well formed.
    Syntax,
    /// A placeholder has no value; the first such one is named.
    MissingKey(String),
}

/// A segment as a pair: whether it is a placeholder, and its text or name.
pub open spec fn segment_view(s: Segment) -> (bool, Seq<char>) {
    match s {
        Segment::Text(t) => (false, t@),
        Segment::Key(k) => (true, k@),
    }
}

pub open spec fn segments_view(s: Seq<Segment>) -> Seq<(bool, Seq<char>)> {
    s.map_values(|x: Segment| segment_view(x))
}

pub open spec fn pairs_view(v: Seq<(String, String)>) -> Seq<(Seq<char>, Seq<char>)> {
    v.map_values(|p: (String, String)| (p.0@, p.1@))
}

/// The segments that leon's parser reads from a template, if it accepts it.
pub uninterp spec fn leon_segments(s: Seq<char>) -> Option<Seq<(bool, Seq<char>)>>;

/// Relies on `leon::Template::parse`: it splits the text into literal text
/// and placeholder names, or refuses it; the outcome depends on the text alone.
#[verifier::external_body]
pub(crate) fn parse_template(s: &str) -> (r: Result<Vec<Segment>, TemplateError>)
    ensures
        match leon_segments(s@) {
            None => r == Err::<Vec<Segment>, TemplateError>(TemplateError::Syntax),
            Some(items) => r is Ok && segments_view(r->Ok_0@) == items,
        },
{
    let template = match leon::Template::parse(s) {
        Ok(t) => t,
        Err(_) => return Err(TemplateError::Syntax),
    };
    let mut out = Vec::new();
    for item in template.items.iter() {
        match item {
            leon::Item::Text(t) => out.push(Segment::Text(t.to_string())),
            leon::Item::Key(k) => out.push(Segment::Key(k.to_string())),
        }
    }
    Ok(out)
}

/// The value of `key`: the first pair that names it.
pub open spec fn lookup(values: Seq<(Seq<char>, Seq<char>)>, key: Seq<char>) -> Option<Seq<char>>
    decreases values.len(),
{
    if values.len() == 0 {
        None
    } else if values[0].0 == key {
        Some(values[0].1)
    } else {
        lookup(values.drop_first(), key)
    }
}

/// The rendered text, or the first placeholder that has no value.
pub open spec fn rendered(segs: Seq<(bool, Seq<char>)>, values: Seq<(Seq<char>, Seq<char>)>) -> Result<
    Seq<char>,
    Seq<char>,
>
    decreases segs.len(),
{
    if segs.len() == 0 {
        Ok(Seq::empty())
    } else {
        match rendered(segs.drop_last(), values) {
            Err(k) => Err(k),
            Ok(prefix) => {
                let last = segs.last();
                if !last.0 {
                    Ok(prefix + last.1)
                } else {
                    match lookup(values, last.1) {
                        Some(v) => Ok(prefix + v),
                        None => Err(last.1),
                    }
                }
            },
        }
    }
}

/// Relies on `leon::Template::new` and `Template::render`: with no default
/// value, leon writes each text item as it is and each key as the value of
/// the first pair that names it, and stops with `MissingKey` at the first
/// key that no pair names (leon's `Values` for `Vec<(K, V)>`). Writing into
/// memory raises no I/O error.
#[verifier::external_body]
fn leon_render(segs: &Vec<Segment>, values: &Vec<(String, String)>) -> (r: Result<
    String,
    TemplateError,
>)
    ensures
        match rendered(segments_view(segs@), pairs_view(values@)) {
            Ok(t) => r is Ok && r->Ok_0@ == t,
            Err(k) => r is Err && r->Err_0 is MissingKey && r->Err_0->MissingKey_0@ == k,
        },
{
    let mut items: Vec<leon::Item<'_>> = Vec::with_capacity(segs.len());
    for seg in segs {
        match seg {
            Segment::Text(t) => items.push(leon::Item::Text(t.as_str())),
            Segment::Key(k) => items.push(leon::Item::Key(k.as_str())),
        }
    }
    match leon::Template::new(&items, None).render(values) {
        Ok(text) => Ok(text),
        Err(leon::RenderError::MissingKey(k)) => Err(TemplateError::MissingKey(k)),
        Err(leon::RenderError::Io(_)) => Err(TemplateError::Syntax),
    }
}

/// Parses and renders a template: literal text stays, each placeholder
/// becomes its value. Fails on the first placeholder without a value, never
/// rendering a part of the template.
pub fn render_template(template: &str, values: &Vec<(String, String)>) -> (r: Result<
    String,
    TemplateError,
>)
    ensures
        match leon_segments(template@) {
            None => r == Err::<String, TemplateError>(TemplateError::Syntax),
            Some(segs) => match rendered(segs, pairs_view(values@)) {
                Ok(t) => r is Ok && r->Ok_0@ == t,
                Err(k) => r is Err && r->Err_0 is MissingKey && r->Err_0->MissingKey_0@ == k,
            },
        },
{
    let segs = parse_template(template)?;
    leon_render(&segs, values)
}

/// Job-specific values before the process-wide defaults, so that a name set
/// by the job takes the job's value.
pub fn merge_values(job: &Vec<(String, String)>, defaults: &Vec<(String, String)>) -> (r: Vec<
    (String, String),
>)
    ensures
        pairs_view(r@) == pairs_view(job@) + pairs_view(defaults@),
{
    let mut out: Vec<(String, String)> = Vec::new();
    let mut i: usize = 0;
    while i < job.len()
        invariant
            i <= job@.len(),
            pairs_view(out@) == pairs_view(job@.subrange(0, i as int)),
        decreases job@.len() - i,
    {
        let ghost before = out@;
        let k = job[i].0.clone();
        let v = job[i].1.clone();
        out.push((k, v));
        assert(out@ == before.push(job@[i as int]));
        assert(pairs_view(out@) =~= pairs_view(before).push((job@[i as int].0@, job@[i as int].1@)));
        assert(pairs_view(out@) =~= pairs_view(job@.subrange(0, i + 1)));
        i = i + 1;
    }
    let mut j: usize = 0;
    while j < defaults.len()
        invariant
            j <= defaults@.len(),
            pairs_view(out@) == pairs_view(job@) + pairs_view(defaults@.subrange(0, j as int)),
        decreases defaults@.len() - j,
    {
        let ghost before = out@;
        let k = defaults[j].0.clone();
        let v = defaults[j].1.clone();
        out.push((k, v));
        assert(out@ == before.push(defaults@[j as int]));
        assert(pairs_view(out@) =~= pairs_view(before).push(
            (defaults@[j as int].0@, defaults@[j as int].1@),
        ));
        assert(pairs_view(out@) =~= pairs_view(job@) + pairs_view(defaults@.subrange(0, j + 1)));
        j = j + 1;
    }
    proof {
        assert(job@.subrange(0, job@.len() as int) =~= job@);
        assert(defaults@.subrange(0, defaults@.len() as int) =~= defaults@);
    }
    out
}

/// A name that the job sets takes the job's value; any other name takes the
/// default's value, if there is one.
pub proof fn lemma_job_values_override(
    job: Seq<(Seq<char>, Seq<char>)>,
    defaults: Seq<(Seq<char>, Seq<char>)>,
    key: Seq<char>,
)
    ensures
        lookup(job + defaults, key) == match lookup(job, key) {
            Some(v) => Some(v),
            None => lookup(defaults, key),
        },
    decreases job.len(),
{
    if job.len() == 0 {
        assert(job + defaults =~= defaults);
    } else {
        assert((job + defaults).drop_first() =~= job.drop_first() + defaults);
        lemma_job_values_override(job.drop_first(), defaults, key);
    }
}

/// Unicode's White_Space characters, which `char::is_whitespace` accepts.
pub open spec fn is_ws(c: char) -> bool {
    ||| '\u{9}' <= c <= '\u{d}'
    ||| c == ' '
    ||| c == '\u{85}'
    ||| c == '\u{a0}'
    ||| c == '\u{1680}'
    ||| '\u{2000}' <= c <= '\u{200a}'
    ||| c == '\u{2028}'
    ||| c == '\u{2029}'
    ||| c == '\u{202f}'
    ||| c == '\u{205f}'
    ||| c == '\u{3000}'
}

pub fn is_whitespace(c: char) -> (r: bool)
    ensures
        r == is_ws(c),
{
    ('\u{9}' <= c && c <= '\u{d}') || c == ' ' || c == '\u{85}' || c == '\u{a0}' || c
        == '\u{1680}' || ('\u{2000}' <= c && c <= '\u{200a}') || c == '\u{2028}' || c
        == '\u{2029}' || c == '\u{202f}' || c == '\u{205f}' || c == '\u{3000}'
}

/// Reading `s` from the left: the words already closed, and the run of
/// non-whitespace characters at its end.
pub open spec fn scan(s: Seq<char>) -> (Seq<Seq<char>>, Seq<char>)
    decreases s.len(),
{
    if s.len() == 0 {
        (Seq::empty(), Seq::empty())
    } else {
        let (done, cur) = scan(s.drop_last());
        if is_ws(s.last()) {
            if cur.len() > 0 {
                (done.push(cur), Seq::empty())
            } else {
                (done, Seq::empty())
            }
        } else {
            (done, cur.push(s.last()))
        }
    }
}

/// The maximal runs of non-whitespace characters of `s`, in order.
pub open spec fn words(s: Seq<char>) -> Seq<Seq<char>> {
    let (done, cur) = scan(s);
    if cur.len() > 0 {
        done.push(cur)
    } else {
        done
    }
}

pub open spec fn strings_view(v: Seq<String>) -> Seq<Seq<char>> {
    v.map_values(|t: String| t@)
}

/// Splits a rendered command into arguments at whitespace. A file name that
/// holds whitespace is split too.
pub fn split_arguments(s: &str) -> (r: Vec<String>)
    ensures
        strings_view(r@) == words(s@),
{
    let n = s.unicode_len();
    let mut out: Vec<String> = Vec::new();
    let mut start: usize = 0;
    let mut in_word = false;
    let mut i: usize = 0;
    while i < n
        invariant
            n == s@.len(),
            i <= n,
            strings_view(out@) == scan(s@.subrange(0, i as int)).0,
            in_word ==> start < i,
            scan(s@.subrange(0, i as int)).1 == (if in_word {
                s@.subrange(start as int, i as int)
            } else {
                Seq::empty()
            }),
        decreases n - i,
    {
        let c = s.get_char(i);
        assert(s@.subrange(0, i + 1).drop_last() =~= s@.subrange(0, i as int));
        if is_whitespace(c) {
            if in_word {
                let w = s.substring_char(start, i).to_owned();
                let ghost before = out@;
                out.push(w);
                assert(strings_view(out@) =~= strings_view(before).push(w@));
                in_word = false;
            }
        } else {
            if !in_word {
                start = i;
                in_word = true;
            }
            assert(s@.subrange(start as int, i + 1) =~= s@.subrange(start as int, i as int).push(c));
        }
        i = i + 1;
    }
    assert(s@.subrange(0, n as int) =~= s@);
    if in_word {
        let w = s.substring_char(start, n).to_owned();
        let ghost before = out@;
        out.push(w);
        assert(strings_view(out@) =~= strings_view(before).push(w@));
    }
    out
}

} // verus!
