//! The record list: lines of `<source> <destination...>` turned into records.
use vstd::prelude::*;
use vstd::string::*;

verus! {

/// The characters that carry the Unicode `White_Space` property.
pub open spec fn is_white(c: char) -> bool {
    let u = c as u32;
    (0x09 <= u && u <= 0x0D) || u == 0x20 || u == 0x85 || u == 0xA0 || u == 0x1680 || (0x2000
        <= u && u <= 0x200A) || u == 0x2028 || u == 0x2029 || u == 0x202F || u == 0x205F || u
        == 0x3000
}

/// Whether `c` separates the tokens of a line.
pub fn is_separator(c: char) -> (r: bool)
    ensures
        r == is_white(c),
{
    let u = c as u32;
    (0x09 <= u && u <= 0x0D) || u == 0x20 || u == 0x85 || u == 0xA0 || u == 0x1680 || (0x2000
        <= u && u <= 0x200A) || u == 0x2028 || u == 0x2029 || u == 0x202F || u == 0x205F || u
        == 0x3000
}

/// The maximal runs of non-separator characters of `s`, from left to right.
pub open spec fn tokens(s: Seq<char>) -> Seq<Seq<char>>
    decreases s.len(),
{
    if s.len() == 0 {
        Seq::empty()
    } else {
        let p = s.drop_last();
        let c = s.last();
        let t = tokens(p);
        if is_white(c) {
            t
        } else if p.len() > 0 && !is_white(p.last()) {
            t.update(t.len() - 1, t.last().push(c))
        } else {
            t.push(seq![c])
        }
    }
}

/// The tokens `ts` written one after another with a single space between neighbours.
pub open spec fn join_spaced(ts: Seq<Seq<char>>) -> Seq<char>
    decreases ts.len(),
{
    if ts.len() == 0 {
        Seq::empty()
    } else if ts.len() == 1 {
        ts[0]
    } else {
        join_spaced(ts.drop_last()) + seq![' '] + ts.last()
    }
}

/// The character sequences of a sequence of strings.
pub open spec fn views(v: Seq<String>) -> Seq<Seq<char>> {
    v.map_values(|s: String| s@)
}

/// What a line stands for: its first token as the source and the other tokens,
/// joined by single spaces, as the destination; nothing where it has fewer than two.
pub open spec fn line_record(line: Seq<char>) -> Option<(Seq<char>, Seq<char>)> {
    let t = tokens(line);
    if t.len() >= 2 {
        Some((t[0], join_spaced(t.subrange(1, t.len() as int))))
    } else {
        None
    }
}

/// The records that a sequence of lines yields, in the order of the lines.
pub open spec fn parsed_records(lines: Seq<Seq<char>>) -> Seq<(Seq<char>, Seq<char>)>
    decreases lines.len(),
{
    if lines.len() == 0 {
        Seq::empty()
    } else {
        let p = parsed_records(lines.drop_last());
        match line_record(lines.last()) {
            Some(r) => p.push(r),
            None => p,
        }
    }
}

/// Whether a line is reported as malformed: it is not empty, yet holds no record.
pub open spec fn is_malformed(line: Seq<char>) -> bool {
    line.len() > 0 && line_record(line) is None
}

/// The malformed lines among `lines`, in their order.
pub open spec fn malformed_lines(lines: Seq<Seq<char>>) -> Seq<Seq<char>>
    decreases lines.len(),
{
    if lines.len() == 0 {
        Seq::empty()
    } else {
        let p = malformed_lines(lines.drop_last());
        if is_malformed(lines.last()) {
            p.push(lines.last())
        } else {
            p
        }
    }
}

/// One item of work: where to fetch from and where to write to.
pub struct Image {
    pub url: String,
    pub file_name: String,
}

impl View for Image {
    type V = (Seq<char>, Seq<char>);

    open spec fn view(&self) -> (Seq<char>, Seq<char>) {
        (self.url@, self.file_name@)
    }
}

/// The views of a sequence of records.
pub open spec fn image_views(v: Seq<Image>) -> Seq<(Seq<char>, Seq<char>)> {
    v.map_values(|i: Image| i@)
}

/// The records of a list of lines, and the lines that were dropped as malformed.
pub struct UrlList {
    pub images: Vec<Image>,
    pub invalid_lines: Vec<String>,
}

/// Splits `line` at its separators.
pub fn split_tokens(line: &str) -> (r: Vec<String>)
    ensures
        views(r@) == tokens(line@),
{
    let n = line.unicode_len();
    let mut toks: Vec<String> = Vec::new();
    let mut start: usize = 0;
    let mut inside = false;
    let mut i: usize = 0;
    while i < n
        invariant
            n == line@.len(),
            start <= i <= n,
            inside ==> start < i && !is_white(line@[i - 1]) && tokens(line@.take(i as int))
                == views(toks@).push(line@.subrange(start as int, i as int)),
            !inside ==> (i == 0 || is_white(line@[i - 1])) && tokens(line@.take(i as int))
                == views(toks@),
        decreases n - i,
    {
        let c = line.get_char(i);
        assert(line@.take(i + 1).drop_last() =~= line@.take(i as int));
        assert(line@.take(i + 1).last() == c);
        if is_separator(c) {
            if inside {
                let t = line.substring_char(start, i).to_owned();
                proof {
                    assert(views(toks@.push(t)) =~= views(toks@).push(t@));
                }
                toks.push(t);
                inside = false;
            }
        } else if inside {
            assert(line@.subrange(start as int, i as int).push(c) =~= line@.subrange(
                start as int,
                i + 1,
            ));
            assert(views(toks@).push(line@.subrange(start as int, i as int)).update(
                views(toks@).len() as int,
                line@.subrange(start as int, i + 1),
            ) =~= views(toks@).push(line@.subrange(start as int, i + 1)));
        } else {
            assert(line@.subrange(i as int, i + 1) =~= seq![c]);
            start = i;
            inside = true;
        }
        i = i + 1;
    }
    assert(line@.take(n as int) =~= line@);
    if inside {
        let t = line.substring_char(start, n).to_owned();
        proof {
            assert(views(toks@.push(t)) =~= views(toks@).push(t@));
        }
        toks.push(t);
    }
    toks
}

/// Reads one line of the record list.
pub fn parse_line(line: &str) -> (r: Option<Image>)
    ensures
        match line_record(line@) {
            Some(rec) => r is Some && r->0@ == rec,
            None => r is None,
        },
{
    let toks = split_tokens(line);
    if toks.len() < 2 {
        return None;
    }
    let ghost t = tokens(line@);
    let url = toks[0].clone();
    let mut file_name = String::new();
    let mut j: usize = 1;
    while j < toks.len()
        invariant
            views(toks@) == t,
            2 <= t.len(),
            1 <= j <= toks.len(),
            j == 1 ==> file_name@ == Seq::<char>::empty(),
            j > 1 ==> file_name@ == join_spaced(t.subrange(1, j as int)),
        decreases toks.len() - j,
    {
        if j > 1 {
            proof {
                reveal_strlit(" ");
            }
            file_name.append(" ");
        }
        file_name.append(toks[j].as_str());
        proof {
            let s = t.subrange(1, j + 1);
            assert(s.drop_last() =~= t.subrange(1, j as int));
            assert(s.last() == toks@[j as int]@);
            if j == 1 {
                assert(file_name@ =~= toks@[1]@);
            } else {
                assert(" "@ =~= seq![' ']);
            }
        }
        j = j + 1;
    }
    assert(t.subrange(1, t.len() as int) =~= t.subrange(1, j as int));
    Some(Image { url, file_name })
}

/// Reads the lines of a record list: each line that has a source and a destination
/// gives a record, an empty line is passed over, and any other line is set aside.
pub fn parse_url_lines(lines: &Vec<String>) -> (r: UrlList)
    ensures
        image_views(r.images@) == parsed_records(views(lines@)),
        views(r.invalid_lines@) == malformed_lines(views(lines@)),
{
    let mut images: Vec<Image> = Vec::new();
    let mut invalid_lines: Vec<String> = Vec::new();
    let mut k: usize = 0;
    while k < lines.len()
        invariant
            k <= lines.len(),
            image_views(images@) == parsed_records(views(lines@.take(k as int))),
            views(invalid_lines@) == malformed_lines(views(lines@.take(k as int))),
        decreases lines.len() - k,
    {
        let line = lines[k].as_str();
        proof {
            assert(views(lines@.take(k + 1)).drop_last() =~= views(lines@.take(k as int)));
            assert(views(lines@.take(k + 1)).last() == line@);
        }
        let n = line.unicode_len();
        match parse_line(line) {
            Some(image) => {
                proof {
                    assert(image_views(images@.push(image)) =~= image_views(images@).push(
                        image@,
                    ));
                }
                images.push(image);
            },
            None => {
                if n > 0 {
                    let bad = lines[k].clone();
                    proof {
                        assert(views(invalid_lines@.push(bad)) =~= views(invalid_lines@).push(
                            bad@,
                        ));
                    }
                    invalid_lines.push(bad);
                }
            },
        }
        k = k + 1;
    }
    assert(lines@.take(k as int) =~= lines@);
    UrlList { images, invalid_lines }
}

/// A line with fewer than two tokens adds no record: it is set aside as malformed
/// where it is not empty, and passed over where it is.
pub proof fn lemma_short_line_adds_no_record(lines: Seq<Seq<char>>, line: Seq<char>)
    requires
        tokens(line).len() < 2,
    ensures
        parsed_records(lines.push(line)) == parsed_records(lines),
        line.len() > 0 ==> malformed_lines(lines.push(line)) == malformed_lines(lines).push(line),
        line.len() == 0 ==> malformed_lines(lines.push(line)) == malformed_lines(lines),
{
    assert(lines.push(line).drop_last() =~= lines);
}

} // verus!
