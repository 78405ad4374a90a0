//! Sentence-list import: plain text, one sentence per line, or
//! delimiter-separated records whose first field is the sentence.

use vstd::prelude::*;
use vstd::string::{StrSliceExecFns, StringExecFns};
use crate::models::Sentence;
use crate::strutil::{join_path, spec_trim, str_eq, trim_str};

verus! {

/// Index of the first newline, or the length when there is none.
pub open spec fn find_newline(s: Seq<char>) -> int
    decreases s.len(),
{
    if s.len() == 0 {
        0
    } else if s[0] == '\n' {
        0
    } else {
        1 + find_newline(s.drop_first())
    }
}

/// `find_newline` returns the unique position that is a newline with no
/// newline before it (or the length, when no newline occurs).
proof fn lemma_find_newline_is(s: Seq<char>, k: int)
    requires
        0 <= k <= s.len(),
        forall|j: int| 0 <= j < k ==> (#[trigger] s[j]) != '\n',
        k < s.len() ==> s[k] == '\n',
    ensures
        find_newline(s) == k,
    decreases s.len(),
{
    if k == 0 {
    } else {
        assert(s[0] != '\n');
        let rest = s.drop_first();
        assert(forall|j: int| 0 <= j < k - 1 ==> (#[trigger] rest[j]) == s[j + 1]);
        lemma_find_newline_is(rest, k - 1);
    }
}

/// The lines of a text, as `str::lines` splits them: separated by `\n`, with
/// a `\r` immediately before the `\n` stripped; a final line without a
/// newline is kept as it stands, and a trailing newline opens no extra empty
/// line.
pub open spec fn spec_lines(s: Seq<char>) -> Seq<Seq<char>>
    decreases s.len(),
{
    if s.len() == 0 {
        Seq::empty()
    } else {
        let k = find_newline(s);
        if 0 <= k && k < s.len() {
            let line = s.subrange(0, k);
            let stripped = if line.len() > 0 && line.last() == '\r' {
                line.drop_last()
            } else {
                line
            };
            seq![stripped] + spec_lines(s.subrange(k + 1, s.len() as int))
        } else {
            seq![s]
        }
    }
}

/// Parses plain text into sentences: one per line, trimmed, numbered from 1,
/// not yet recorded.
pub fn parse_txt(file_contents: &str) -> (r: Vec<Sentence>)
    ensures
        r@.len() == spec_lines(file_contents@).len(),
        forall|i: int|
            0 <= i < r@.len() ==> {
                let s = #[trigger] r@[i];
                &&& s.id == i + 1
                &&& s.text@ == spec_trim(spec_lines(file_contents@)[i])
                &&& !s.recorded
                &&& s.audio_file_path is None
            },
{
    let len = file_contents.unicode_len();
    let mut out: Vec<Sentence> = Vec::new();
    let mut pos: usize = 0;
    let ghost mut done: Seq<Seq<char>> = Seq::empty();
    proof {
        assert(file_contents@.subrange(0, len as int) =~= file_contents@);
        assert(done + spec_lines(file_contents@.subrange(0, len as int)) =~= spec_lines(
            file_contents@));
    }
    while pos < len
        invariant
            pos <= len,
            len == file_contents@.len(),
            out@.len() == done.len(),
            out@.len() <= pos,
            spec_lines(file_contents@) == done + spec_lines(
                file_contents@.subrange(pos as int, len as int),
            ),
            forall|i: int|
                0 <= i < out@.len() ==> {
                    let s = #[trigger] out@[i];
                    &&& s.id == i + 1
                    &&& s.text@ == spec_trim(done[i])
                    &&& !s.recorded
                    &&& s.audio_file_path is None
                },
        decreases len - pos,
    {
        let mut j: usize = pos;
        while j < len && file_contents.get_char(j) != '\n'
            invariant
                pos <= j <= len,
                len == file_contents@.len(),
                forall|k: int| pos <= k < j ==> (#[trigger] file_contents@[k]) != '\n',
            decreases len - j,
        {
            j += 1;
        }
        let ghost suffix = file_contents@.subrange(pos as int, len as int);
        proof {
            assert(forall|k: int|
                0 <= k < j - pos ==> (#[trigger] suffix[k]) == file_contents@[pos + k]);
            lemma_find_newline_is(suffix, j - pos);
        }
        if j < len {
            let line_end: usize = if j > pos && file_contents.get_char(j - 1) == '\r' {
                j - 1
            } else {
                j
            };
            let sub = file_contents.substring_char(pos, line_end);
            let text = trim_str(sub);
            let id = out.len() + 1;
            out.push(Sentence { id, text, recorded: false, audio_file_path: None });
            proof {
                let line = suffix.subrange(0, j - pos);
                let stripped = if line.len() > 0 && line.last() == '\r' {
                    line.drop_last()
                } else {
                    line
                };
                assert(line =~= file_contents@.subrange(pos as int, j as int));
                assert(stripped =~= file_contents@.subrange(pos as int, line_end as int));
                assert(suffix.subrange(j - pos + 1, suffix.len() as int) =~= file_contents@.subrange(
                    j + 1, len as int));
                assert(spec_lines(suffix) == seq![stripped] + spec_lines(
                    file_contents@.subrange(j + 1, len as int)));
                done = done.push(stripped);
                assert(spec_lines(file_contents@) =~= done + spec_lines(
                    file_contents@.subrange(j + 1, len as int)));
            }
            pos = j + 1;
        } else {
            let sub = file_contents.substring_char(pos, len);
            let text = trim_str(sub);
            let id = out.len() + 1;
            out.push(Sentence { id, text, recorded: false, audio_file_path: None });
            proof {
                assert(suffix.len() > 0);
                assert(find_newline(suffix) == suffix.len());
                assert(spec_lines(suffix) == seq![suffix]);
                assert(sub@ =~= suffix);
                done = done.push(suffix);
                assert(file_contents@.subrange(len as int, len as int) =~= Seq::<char>::empty());
                assert(spec_lines(file_contents@) =~= done + spec_lines(
                    file_contents@.subrange(len as int, len as int)));
            }
            pos = len;
        }
    }
    proof {
        assert(file_contents@.subrange(len as int, len as int) =~= Seq::<char>::empty());
        assert(spec_lines(file_contents@) =~= done);
    }
    out
}

/// Names what the outside CSV reader yields for a text and delimiter: the
/// first field of each record (the first row being treated as headers), or
/// nothing when the reader rejects the text. The result is a function of the
/// text and delimiter alone.
pub uninterp spec fn delimited_rows(contents: Seq<char>, delimiter: u8) -> Option<Seq<Seq<char>>>;

/// Relies on csv's `ReaderBuilder`, `Reader::records` and `StringRecord::get`:
/// parses delimiter-separated text and hands back each record's first field,
/// or the reader's error rendered as text.
#[verifier::external_body]
fn read_delimited_fields(contents: &str, delimiter: u8) -> (r: Result<Vec<String>, String>)
    ensures
        (r is Ok) == (delimited_rows(contents@, delimiter) is Some),
        (r matches Ok(fields) ==> Some(fields@.map_values(|f: String| f@)) == delimited_rows(
            contents@, delimiter)),
{
    let mut rdr = csv::ReaderBuilder::new().delimiter(delimiter).from_reader(contents.as_bytes());
    let mut out: Vec<String> = Vec::new();
    for result in rdr.records() {
        match result {
            Ok(record) => out.push(record.get(0).unwrap_or("").to_string()),
            Err(e) => return Err(format!("Failed to parse: {}", e)),
        }
    }
    Ok(out)
}

/// Parses delimiter-separated records into sentences: each record's first
/// field, numbered from 1, not yet recorded.
pub fn parse_delimited(file_contents: &str, delimiter: u8) -> (r: Result<Vec<Sentence>, String>)
    ensures
        (r is Ok) == (delimited_rows(file_contents@, delimiter) is Some),
        (r matches Ok(sentences) ==> {
            let rows = delimited_rows(file_contents@, delimiter)->Some_0;
            &&& sentences@.len() == rows.len()
            &&& forall|i: int|
                0 <= i < sentences@.len() ==> {
                    let s = #[trigger] sentences@[i];
                    &&& s.id == i + 1
                    &&& s.text@ == rows[i]
                    &&& !s.recorded
                    &&& s.audio_file_path is None
                }
        }),
{
    let fields = match read_delimited_fields(file_contents, delimiter) {
        Ok(fields) => fields,
        Err(e) => {
            return Err(e);
        },
    };
    let ghost rows = delimited_rows(file_contents@, delimiter)->Some_0;
    let mut out: Vec<Sentence> = Vec::new();
    let mut i: usize = 0;
    while i < fields.len()
        invariant
            i <= fields@.len(),
            out@.len() == i,
            rows == fields@.map_values(|f: String| f@),
            forall|k: int|
                0 <= k < out@.len() ==> {
                    let s = #[trigger] out@[k];
                    &&& s.id == k + 1
                    &&& s.text@ == rows[k]
                    &&& !s.recorded
                    &&& s.audio_file_path is None
                },
        decreases fields@.len() - i,
    {
        let text = fields[i].clone();
        out.push(Sentence { id: i + 1, text, recorded: false, audio_file_path: None });
        i += 1;
    }
    Ok(out)
}

/// The supported sentence-list formats, by file extension.
#[derive(Clone, Copy, PartialEq, Eq, Structural, Debug)]
pub enum ImportFormat {
    Txt,
    Csv,
    Tsv,
}

/// Maps a file extension to its import format; anything but `txt`, `csv` and
/// `tsv` is unsupported.
pub fn parse_import_format(extension: &str) -> (r: Option<ImportFormat>)
    ensures
        extension@ == "txt"@ ==> r == Some(ImportFormat::Txt),
        extension@ == "csv"@ ==> r == Some(ImportFormat::Csv),
        extension@ == "tsv"@ ==> r == Some(ImportFormat::Tsv),
        extension@ != "txt"@ && extension@ != "csv"@ && extension@ != "tsv"@ ==> r is None,
{
    broadcast use vstd::string::group_string_axioms;

    proof {
        reveal_strlit("txt");
        reveal_strlit("csv");
        reveal_strlit("tsv");
        assert("txt"@[0] == 't' && "csv"@[0] == 'c' && "tsv"@[0] == 't');
        assert("txt"@[1] == 'x' && "tsv"@[1] == 's');
        assert("txt"@ != "csv"@ && "txt"@ != "tsv"@ && "csv"@ != "tsv"@);
    }
    if str_eq(extension, "txt") {
        Some(ImportFormat::Txt)
    } else if str_eq(extension, "csv") {
        Some(ImportFormat::Csv)
    } else if str_eq(extension, "tsv") {
        Some(ImportFormat::Tsv)
    } else {
        None
    }
}

/// The sentence texts an import yields for a file's contents, or nothing when
/// the contents are rejected.
pub open spec fn spec_import_texts(contents: Seq<char>, format: ImportFormat) -> Option<
    Seq<Seq<char>>,
> {
    match format {
        ImportFormat::Txt => Some(
            Seq::new(spec_lines(contents).len(), |i: int| spec_trim(spec_lines(contents)[i])),
        ),
        ImportFormat::Csv => delimited_rows(contents, 44u8),
        ImportFormat::Tsv => delimited_rows(contents, 9u8),
    }
}

/// What an imported sentence list looks like: texts in order, ids numbered
/// from 1, nothing recorded, and each audio path preassigned inside the
/// project directory as the raw text with `.wav` appended.
pub open spec fn spec_imported(
    r: Seq<Sentence>,
    texts: Seq<Seq<char>>,
    project_dir: Seq<char>,
) -> bool {
    &&& r.len() == texts.len()
    &&& forall|i: int|
        0 <= i < r.len() ==> {
            let s = #[trigger] r[i];
            &&& s.id == i + 1
            &&& s.text@ == texts[i]
            &&& !s.recorded
            &&& (s.audio_file_path matches Some(p) && p@ == project_dir + "/"@ + texts[i]
                + ".wav"@)
        }
}

/// Imports a sentence list from file contents already read in the given
/// format, assigning each sentence its id and its audio file path inside the
/// project directory.
pub fn import_sentences(file_contents: &str, format: ImportFormat, project_dir: &str) -> (r: Result<
    Vec<Sentence>,
    String,
>)
    ensures
        (r is Ok) == (spec_import_texts(file_contents@, format) is Some),
        (r matches Ok(sentences) ==> spec_imported(
            sentences@,
            spec_import_texts(file_contents@, format)->Some_0,
            project_dir@,
        )),
{
    let parsed = match format {
        ImportFormat::Txt => parse_txt(file_contents),
        ImportFormat::Csv => {
            match parse_delimited(file_contents, 44u8) {
                Ok(v) => v,
                Err(e) => {
                    return Err(e);
                },
            }
        },
        ImportFormat::Tsv => {
            match parse_delimited(file_contents, 9u8) {
                Ok(v) => v,
                Err(e) => {
                    return Err(e);
                },
            }
        },
    };
    let ghost texts = spec_import_texts(file_contents@, format)->Some_0;
    proof {
        assert(texts.len() == parsed@.len());
        assert(forall|i: int| 0 <= i < parsed@.len() ==> (#[trigger] parsed@[i]).text@ == texts[i]);
    }
    let mut out: Vec<Sentence> = Vec::new();
    let mut i: usize = 0;
    while i < parsed.len()
        invariant
            i <= parsed@.len(),
            out@.len() == i,
            texts.len() == parsed@.len(),
            forall|k: int|
                0 <= k < parsed@.len() ==> (#[trigger] parsed@[k]).text@ == texts[k],
            forall|k: int|
                0 <= k < out@.len() ==> {
                    let s = #[trigger] out@[k];
                    &&& s.id == k + 1
                    &&& s.text@ == texts[k]
                    &&& !s.recorded
                    &&& (s.audio_file_path matches Some(p) && p@ == project_dir@ + "/"@ + texts[k]
                        + ".wav"@)
                },
        decreases parsed@.len() - i,
    {
        let text = parsed[i].text.clone();
        let file_name = text.clone().concat(".wav");
        let path = join_path(project_dir, file_name.as_str());
        proof {
            assert(path@ == project_dir@ + "/"@ + (texts[i as int] + ".wav"@));
            assert(project_dir@ + "/"@ + (texts[i as int] + ".wav"@) =~= project_dir@ + "/"@
                + texts[i as int] + ".wav"@);
        }
        out.push(Sentence { id: i + 1, text, recorded: false, audio_file_path: Some(path) });
        i += 1;
    }
    Ok(out)
}

} // verus!
