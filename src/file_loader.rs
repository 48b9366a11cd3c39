use vstd::prelude::*;

verus! {

/// Why a path could not be loaded.
pub enum LoadError {
    /// The input file does not exist.
    InputNotFound,
    /// The input file exists but could not be read as text.
    InputUnreadable,
    /// The line (numbered from 1) does not hold two numbers.
    MalformedSample { line: usize },
    /// The file holds no sample at all.
    EmptyPath,
}

/// The two coordinate fields of one sample, as written on line `line`
/// (numbered from 1).
pub struct SampleText {
    pub line: usize,
    pub re: String,
    pub im: String,
}

pub open spec fn is_newline(c: char) -> bool {
    c == '\n'
}

/// The characters that separate the fields of a line.
pub open spec fn is_blank(c: char) -> bool {
    c == ' ' || c == '\t' || c == '\n' || c == '\r' || c == '\x0C'
}

/// Scans `s` left to right, cutting it at each separator: the pieces cut off
/// so far (empty ones only where `keep_empty`) and the piece under way.
pub open spec fn scan(s: Seq<char>, is_sep: spec_fn(char) -> bool, keep_empty: bool) -> (
    Seq<Seq<char>>,
    Seq<char>,
)
    decreases s.len(),
{
    if s.len() == 0 {
        (Seq::empty(), Seq::empty())
    } else {
        let (done, cur) = scan(s.drop_last(), is_sep, keep_empty);
        if is_sep(s.last()) {
            if keep_empty || cur.len() > 0 {
                (done.push(cur), Seq::empty())
            } else {
                (done, Seq::empty())
            }
        } else {
            (done, cur.push(s.last()))
        }
    }
}

/// All pieces of a scan; an empty last piece is not one.
pub open spec fn finish(st: (Seq<Seq<char>>, Seq<char>)) -> Seq<Seq<char>> {
    if st.1.len() > 0 {
        st.0.push(st.1)
    } else {
        st.0
    }
}

/// A line without the carriage return that may end it.
pub open spec fn strip_cr(l: Seq<char>) -> Seq<char> {
    if l.len() > 0 && l.last() == '\r' {
        l.drop_last()
    } else {
        l
    }
}

/// The lines of `s`: cut at each newline, a final newline ending the last
/// line rather than starting an empty one, and a carriage return at the end
/// of a line dropped.
pub open spec fn lines_of(s: Seq<char>) -> Seq<Seq<char>> {
    finish(scan(s, |c: char| is_newline(c), true)).map_values(|l: Seq<char>| strip_cr(l))
}

/// The words of `s`: its maximal runs of non-blank characters, in order.
pub open spec fn words_of(s: Seq<char>) -> Seq<Seq<char>> {
    finish(scan(s, |c: char| is_blank(c), false))
}

pub open spec fn strings_view(v: Seq<String>) -> Seq<Seq<char>> {
    v.map_values(|x: String| x@)
}

/// The samples of the lines `ls`, with the number of the line of each; a line
/// without words is passed over, and the first line with a single word is an
/// error. Words after the second are not read.
pub open spec fn samples_in(ls: Seq<Seq<char>>) -> Result<
    Seq<(int, Seq<char>, Seq<char>)>,
    LoadError,
>
    decreases ls.len(),
{
    if ls.len() == 0 {
        Ok(Seq::empty())
    } else {
        match samples_in(ls.drop_last()) {
            Err(e) => Err(e),
            Ok(v) => {
                let w = words_of(ls.last());
                if w.len() == 0 {
                    Ok(v)
                } else if w.len() == 1 {
                    Err(LoadError::MalformedSample { line: ls.len() as usize })
                } else {
                    Ok(v.push((ls.len() as int, w[0], w[1])))
                }
            },
        }
    }
}

/// The samples of a whole file's text: as `samples_in` gives them for its
/// lines, and an error where there is none.
pub open spec fn sample_texts(s: Seq<char>) -> Result<Seq<(int, Seq<char>, Seq<char>)>, LoadError> {
    match samples_in(lines_of(s)) {
        Err(e) => Err(e),
        Ok(v) => if v.len() == 0 {
            Err(LoadError::EmptyPath)
        } else {
            Ok(v)
        },
    }
}

pub open spec fn sample_view(t: SampleText) -> (int, Seq<char>, Seq<char>) {
    (t.line as int, t.re@, t.im@)
}

/// Relies on `String: FromIterator<&char>`: the string holds the characters in order.
#[verifier::external_body]
fn string_from_chars(cs: &Vec<char>) -> (r: String)
    ensures
        r@ == cs@,
{
    cs.iter().collect()
}

/// Cuts `input` into its words: maximal runs of characters other than spaces,
/// tabs, line feeds, carriage returns and form feeds.
pub fn extract_words(input: &String) -> (r: Vec<String>)
    ensures
        strings_view(r@) == words_of(input@),
{
    let ghost s = input@;
    let mut words: Vec<String> = Vec::new();
    let mut cur: Vec<char> = Vec::new();
    for c in it: input.as_str().chars()
        invariant
            it.seq() == s,
            (strings_view(words@), cur@) == scan(
                s.subrange(0, it.index() as int),
                |c: char| is_blank(c),
                false,
            ),
    {
        let ghost i = it.index();
        assert(s.subrange(0, i + 1).drop_last() =~= s.subrange(0, i));
        if c == ' ' || c == '\t' || c == '\n' || c == '\r' || c == '\x0C' {
            if cur.len() > 0 {
                let ghost before = words@;
                let w = string_from_chars(&cur);
                words.push(w);
                assert(strings_view(words@) =~= strings_view(before).push(cur@));
            }
            cur = Vec::new();
        } else {
            cur.push(c);
        }
    }
    assert(s.subrange(0, s.len() as int) =~= s);
    if cur.len() > 0 {
        let w = string_from_chars(&cur);
        words.push(w);
    }
    assert(strings_view(words@) =~= words_of(s));
    words
}

/// A line without the carriage return that may end it.
fn strip_carriage_return(mut cur: Vec<char>) -> (r: Vec<char>)
    ensures
        r@ == strip_cr(cur@),
{
    if cur.len() > 0 && cur[cur.len() - 1] == '\r' {
        cur.pop();
    }
    cur
}

/// Cuts `input` into its lines: at each newline, a final newline ending the
/// last line rather than starting an empty one, and a carriage return at the
/// end of a line dropped.
pub fn extract_lines(input: &String) -> (r: Vec<String>)
    ensures
        strings_view(r@) == lines_of(input@),
{
    let ghost s = input@;
    let mut lines: Vec<String> = Vec::new();
    let mut cur: Vec<char> = Vec::new();
    for c in it: input.as_str().chars()
        invariant
            it.seq() == s,
            strings_view(lines@) == scan(
                s.subrange(0, it.index() as int),
                |c: char| is_newline(c),
                true,
            ).0.map_values(|l: Seq<char>| strip_cr(l)),
            cur@ == scan(s.subrange(0, it.index() as int), |c: char| is_newline(c), true).1,
    {
        let ghost i = it.index();
        assert(s.subrange(0, i + 1).drop_last() =~= s.subrange(0, i));
        if c == '\n' {
            let ghost before = scan(s.subrange(0, i), |c: char| is_newline(c), true);
            let ghost lines_before = lines@;
            let line = strip_carriage_return(cur);
            let l = string_from_chars(&line);
            lines.push(l);
            assert(strings_view(lines@) =~= strings_view(lines_before).push(strip_cr(before.1)));
            assert(before.0.push(before.1).map_values(|l: Seq<char>| strip_cr(l)) =~= before.0.map_values(
                |l: Seq<char>| strip_cr(l),
            ).push(strip_cr(before.1)));
            cur = Vec::new();
        } else {
            cur.push(c);
        }
    }
    assert(s.subrange(0, s.len() as int) =~= s);
    if cur.len() > 0 {
        let ghost st = scan(s, |c: char| is_newline(c), true);
        let ghost lines_before = lines@;
        let line = strip_carriage_return(cur);
        let l = string_from_chars(&line);
        lines.push(l);
        assert(st.0.push(st.1).map_values(|l: Seq<char>| strip_cr(l)) =~= st.0.map_values(
            |l: Seq<char>| strip_cr(l),
        ).push(strip_cr(st.1)));
    }
    assert(strings_view(lines@) =~= lines_of(s));
    lines
}

/// Once a prefix of the lines holds an error, the whole holds the same one.
proof fn lemma_error_persists(ls: Seq<Seq<char>>, n: int)
    requires
        0 <= n <= ls.len(),
        samples_in(ls.subrange(0, n)) is Err,
    ensures
        samples_in(ls) == samples_in(ls.subrange(0, n)),
    decreases ls.len() - n,
{
    if n < ls.len() {
        assert(ls.subrange(0, n + 1).drop_last() =~= ls.subrange(0, n));
        lemma_error_persists(ls, n + 1);
    } else {
        assert(ls.subrange(0, n) =~= ls);
    }
}

/// Reads the text of a path file: one sample per line that holds words, its
/// first two words the real and imaginary parts, in file order. A line with
/// a single word is an error, and so is a text without samples.
pub fn split_samples(contents: &String) -> (r: Result<Vec<SampleText>, LoadError>)
    ensures
        match r {
            Ok(v) => sample_texts(contents@) == Ok::<_, LoadError>(v@.map_values(|t: SampleText| sample_view(t))),
            Err(e) => sample_texts(contents@) == Err::<Seq<(int, Seq<char>, Seq<char>)>, _>(e),
        },
{
    let lines = extract_lines(contents);
    let ghost ls = strings_view(lines@);
    let mut samples: Vec<SampleText> = Vec::new();
    let mut i: usize = 0;
    assert(samples@.map_values(|t: SampleText| sample_view(t)) =~= Seq::empty());
    assert(ls.subrange(0, 0) =~= Seq::<Seq<char>>::empty());
    while i < lines.len()
        invariant
            i <= lines.len(),
            ls == strings_view(lines@),
            ls == lines_of(contents@),
            samples_in(ls.subrange(0, i as int)) == Ok::<_, LoadError>(
                samples@.map_values(|t: SampleText| sample_view(t)),
            ),
        decreases lines.len() - i,
    {
        assert(ls.subrange(0, i + 1).drop_last() =~= ls.subrange(0, i as int));
        let words = extract_words(&lines[i]);
        if words.len() == 1 {
            proof {
                lemma_error_persists(ls, i + 1);
            }
            return Err(LoadError::MalformedSample { line: i + 1 });
        }
        if words.len() >= 2 {
            let ghost before = samples@;
            let re = words[0].clone();
            let im = words[1].clone();
            samples.push(SampleText { line: i + 1, re, im });
            assert(samples@.map_values(|t: SampleText| sample_view(t)) =~= before.map_values(
                |t: SampleText| sample_view(t),
            ).push(((i + 1) as int, words@[0]@, words@[1]@)));
        }
        i = i + 1;
    }
    assert(ls.subrange(0, i as int) =~= ls);
    if samples.len() == 0 {
        return Err(LoadError::EmptyPath);
    }
    Ok(samples)
}

} // verus!
