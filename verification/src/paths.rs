//! Artefact path handling: stream suffixes and archive entry names.
//!
//! An artefact is a path string; a path may carry a `:streamName` suffix
//! naming an alternate data stream. Archive entry names may not hold `:`,
//! so the drive-letter colon is stripped and a stream suffix is joined with
//! an underscore instead.

use vstd::prelude::*;

verus! {

/// The index of the last `:` in `s`, or `-1` when there is none.
pub open spec fn last_colon(s: Seq<char>) -> int
    decreases s.len(),
{
    if s.len() == 0 {
        -1
    } else if s[s.len() - 1] == ':' {
        s.len() - 1
    } else {
        last_colon(s.drop_last())
    }
}

/// A `:` at `pos` with no `:` after it is the last one.
proof fn lemma_last_colon_at(s: Seq<char>, pos: int)
    requires
        0 <= pos < s.len(),
        s[pos] == ':',
        forall|j: int| pos < j < s.len() ==> s[j] != ':',
    ensures
        last_colon(s) == pos,
    decreases s.len(),
{
    if pos < s.len() - 1 {
        lemma_last_colon_at(s.drop_last(), pos);
    }
}

/// Without any `:` there is no last one.
proof fn lemma_last_colon_none(s: Seq<char>)
    requires
        forall|j: int| 0 <= j < s.len() ==> s[j] != ':',
    ensures
        last_colon(s) == -1,
    decreases s.len(),
{
    if s.len() > 0 {
        lemma_last_colon_none(s.drop_last());
    }
}

/// What `parse_stream` returns, as a pair of character sequences: the file
/// part and the stream name. A path splits at its last `:` — unless that
/// colon is the drive-letter separator at index 1, or there is none, in
/// which case the whole path is the file part and the stream name is empty.
pub open spec fn parse_stream_spec(s: Seq<char>) -> (Seq<char>, Seq<char>) {
    let pos = last_colon(s);
    if pos == -1 || pos == 1 {
        (s, Seq::<char>::empty())
    } else {
        (s.subrange(0, pos), s.subrange(pos + 1, s.len() as int))
    }
}

/// Split a path into its file part and its alternate-data-stream name.
/// `"C:\\foo\\bar:ads"` splits at the last colon; `"C:\\foo"` has only the
/// drive-letter colon and no stream; a path without any colon has none.
pub fn parse_stream(path: &str) -> (r: (String, String))
    ensures
        r.0@ == parse_stream_spec(path@).0,
        r.1@ == parse_stream_spec(path@).1,
{
    let len = path.unicode_len();
    let mut i: usize = len;
    while i > 0
        invariant
            i <= len,
            len == path@.len(),
            forall|j: int| i <= j < len ==> path@[j] != ':',
        decreases i,
    {
        if path.get_char(i - 1) == ':' {
            proof {
                lemma_last_colon_at(path@, i - 1);
            }
            if i - 1 == 1 {
                return (path.to_owned(), String::new());
            } else {
                let file_part = path.substring_char(0, i - 1).to_owned();
                let stream_part = path.substring_char(i, len).to_owned();
                return (file_part, stream_part);
            }
        }
        i = i - 1;
    }
    proof {
        lemma_last_colon_none(path@);
    }
    (path.to_owned(), String::new())
}

/// `s` with every `:` removed.
pub open spec fn strip_colons(s: Seq<char>) -> Seq<char> {
    s.filter(|c: char| c != ':')
}

/// The index just past the last path separator (`/` or `\`) in `s`,
/// or `0` when there is none: where the base name starts.
pub open spec fn basename_start(s: Seq<char>) -> int
    decreases s.len(),
{
    if s.len() == 0 {
        0
    } else if s[s.len() - 1] == '/' || s[s.len() - 1] == '\\' {
        s.len() as int
    } else {
        basename_start(s.drop_last())
    }
}

/// The base name of a path: everything after the last separator.
pub open spec fn basename_of(s: Seq<char>) -> Seq<char> {
    s.subrange(basename_start(s), s.len() as int)
}

proof fn lemma_basename_start_at(s: Seq<char>, pos: int)
    requires
        0 <= pos < s.len(),
        s[pos] == '/' || s[pos] == '\\',
        forall|j: int| pos < j < s.len() ==> s[j] != '/' && s[j] != '\\',
    ensures
        basename_start(s) == pos + 1,
    decreases s.len(),
{
    if pos < s.len() - 1 {
        lemma_basename_start_at(s.drop_last(), pos);
    }
}

proof fn lemma_basename_start_none(s: Seq<char>)
    requires
        forall|j: int| 0 <= j < s.len() ==> s[j] != '/' && s[j] != '\\',
    ensures
        basename_start(s) == 0,
    decreases s.len(),
{
    if s.len() > 0 {
        lemma_basename_start_none(s.drop_last());
    }
}

/// The base name of a path, after the last `/` or `\`.
pub fn basename(path: &str) -> (r: String)
    ensures
        r@ == basename_of(path@),
{
    let len = path.unicode_len();
    let mut i: usize = len;
    while i > 0
        invariant
            i <= len,
            len == path@.len(),
            forall|j: int| i <= j < len ==> path@[j] != '/' && path@[j] != '\\',
        decreases i,
    {
        let c = path.get_char(i - 1);
        if c == '/' || c == '\\' {
            proof {
                lemma_basename_start_at(path@, i - 1);
            }
            return path.substring_char(i, len).to_owned();
        }
        i = i - 1;
    }
    proof {
        lemma_basename_start_none(path@);
    }
    path.to_owned()
}

/// `s` with every `:` removed, as an executable function.
fn strip_colons_exec(s: &str) -> (r: String)
    ensures
        r@ == strip_colons(s@),
{
    broadcast use vstd::seq_lib::group_filter_ensures;

    let len = s.unicode_len();
    let mut out = String::new();
    let mut i: usize = 0;
    proof {
        assert(s@.subrange(0, 0) =~= Seq::<char>::empty());
        assert(Seq::<char>::empty().filter(|c: char| c != ':') =~= Seq::<char>::empty()) by {
            reveal(Seq::filter);
        }
    }
    while i < len
        invariant
            i <= len,
            len == s@.len(),
            out@ == strip_colons(s@.subrange(0, i as int)),
        decreases len - i,
    {
        let c = s.get_char(i);
        let ghost pre = s@.subrange(0, i as int);
        if c != ':' {
            let piece = s.substring_char(i, i + 1);
            out.append(piece);
        }
        proof {
            assert(s@.subrange(0, i + 1) =~= pre + seq![s@[i as int]]);
            Seq::<char>::filter_distributes_over_add(pre, seq![s@[i as int]], |c: char| c != ':');
            assert(seq![s@[i as int]].drop_last() =~= Seq::<char>::empty());
            assert(seq![s@[i as int]].filter(|c: char| c != ':') =~= (
            if s@[i as int] != ':' {
                seq![s@[i as int]]
            } else {
                Seq::<char>::empty()
            })) by {
                reveal_with_fuel(Seq::filter, 2);
            }
        }
        i = i + 1;
    }
    proof {
        assert(s@.subrange(0, len as int) =~= s@);
    }
    out
}

/// The archive entry name for an artefact, per the archive's layout:
/// a memory dump lands under `memory/` by its base name; on Windows the
/// drive-letter colon is stripped and a stream suffix is joined with `_`
/// instead of `:`; elsewhere the path is the entry name unchanged.
pub open spec fn entry_name_spec(art: Seq<char>, is_memory: bool, windows: bool) -> Seq<char> {
    if is_memory {
        "memory/"@ + basename_of(art)
    } else if windows {
        let parts = parse_stream_spec(art);
        if parts.1.len() == 0 {
            strip_colons(parts.0)
        } else {
            strip_colons(parts.0) + seq!['_'] + parts.1
        }
    } else {
        art
    }
}

/// Compute the archive entry name for one artefact.
pub fn zip_entry_name(artefact: &str, is_memory: bool, windows: bool) -> (r: String)
    ensures
        r@ == entry_name_spec(artefact@, is_memory, windows),
{
    if is_memory {
        let base = basename(artefact);
        let head = "memory/".to_owned();
        head.concat(base.as_str())
    } else if windows {
        let (path, stream) = parse_stream(artefact);
        let stripped = strip_colons_exec(path.as_str());
        if stream.as_str().unicode_len() == 0 {
            proof {
                assert(parse_stream_spec(artefact@).1 =~= Seq::<char>::empty());
            }
            stripped
        } else {
            let with_sep = stripped.concat("_");
            proof {
                reveal_strlit("_");
                assert("_"@ =~= seq!['_']);
            }
            with_sep.concat(stream.as_str())
        }
    } else {
        artefact.to_owned()
    }
}

/// A character of the ASCII alphabet.
pub open spec fn is_ascii_letter(c: char) -> bool {
    ('a' <= c && c <= 'z') || ('A' <= c && c <= 'Z')
}

/// How many ASCII letters the string begins with.
pub open spec fn letter_prefix_len(s: Seq<char>) -> int
    decreases s.len(),
{
    if s.len() == 0 || !is_ascii_letter(s[0]) {
        0
    } else {
        1 + letter_prefix_len(s.drop_first())
    }
}

/// How many `:` the string begins with.
pub open spec fn colon_prefix_len(s: Seq<char>) -> int
    decreases s.len(),
{
    if s.len() == 0 || s[0] != ':' {
        0
    } else {
        1 + colon_prefix_len(s.drop_first())
    }
}

proof fn lemma_letter_prefix(s: Seq<char>, i: int)
    requires
        0 <= i <= s.len(),
        forall|k: int| 0 <= k < i ==> is_ascii_letter(#[trigger] s[k]),
        i < s.len() ==> !is_ascii_letter(s[i]),
    ensures
        letter_prefix_len(s) == i,
    decreases s.len(),
{
    if i > 0 {
        lemma_letter_prefix(s.drop_first(), i - 1);
    }
}

proof fn lemma_colon_prefix(s: Seq<char>, i: int)
    requires
        0 <= i <= s.len(),
        forall|k: int| 0 <= k < i ==> #[trigger] s[k] == ':',
        i < s.len() ==> s[i] != ':',
    ensures
        colon_prefix_len(s) == i,
    decreases s.len(),
{
    if i > 0 {
        lemma_colon_prefix(s.drop_first(), i - 1);
    }
}

/// The string holds a `:` somewhere.
pub open spec fn has_colon(s: Seq<char>) -> bool {
    exists|i: int| 0 <= i < s.len() && s[i] == ':'
}

/// A path with a colon, made drive-relative: the leading drive letters and
/// the colon after them are dropped. A path without any colon is already
/// relative and stays as it is.
pub open spec fn drive_relative_spec(s: Seq<char>) -> Seq<char> {
    if has_colon(s) {
        let rest = s.skip(letter_prefix_len(s));
        rest.skip(colon_prefix_len(rest))
    } else {
        s
    }
}

/// Whether the character at `i` is an ASCII letter.
fn letter_at(s: &str, i: usize) -> (r: bool)
    requires
        i < s@.len(),
    ensures
        r == is_ascii_letter(s@[i as int]),
{
    let c = s.get_char(i);
    (c >= 'a' && c <= 'z') || (c >= 'A' && c <= 'Z')
}

/// Strip a path's drive prefix, so that a literal rule path can be probed
/// below any drive's root.
pub fn drive_relative(path: &str) -> (r: String)
    ensures
        r@ == drive_relative_spec(path@),
{
    let len = path.unicode_len();
    let mut found = false;
    let mut k: usize = 0;
    while k < len
        invariant
            k <= len,
            len == path@.len(),
            found == exists|q: int| 0 <= q < k && path@[q] == ':',
        decreases len - k,
    {
        if path.get_char(k) == ':' {
            found = true;
        }
        k = k + 1;
    }
    if !found {
        return path.to_owned();
    }
    let mut i: usize = 0;
    while i < len && letter_at(path, i)
        invariant
            i <= len,
            len == path@.len(),
            forall|q: int| 0 <= q < i ==> is_ascii_letter(#[trigger] path@[q]),
        decreases len - i,
    {
        i = i + 1;
    }
    proof {
        lemma_letter_prefix(path@, i as int);
    }
    let mut j: usize = i;
    while j < len && path.get_char(j) == ':'
        invariant
            i <= j <= len,
            len == path@.len(),
            forall|q: int| i <= q < j ==> #[trigger] path@[q] == ':',
        decreases len - j,
    {
        j = j + 1;
    }
    proof {
        let rest = path@.skip(i as int);
        lemma_colon_prefix(rest, j - i);
        assert(path@.subrange(j as int, len as int) =~= rest.skip(j - i));
    }
    path.substring_char(j, len).to_owned()
}

/// A path separator: either direction of slash.
pub open spec fn is_separator(c: char) -> bool {
    c == '/' || c == '\\'
}

/// How many non-separator characters the string begins with.
pub open spec fn segment_prefix_len(s: Seq<char>) -> int
    decreases s.len(),
{
    if s.len() == 0 || is_separator(s[0]) {
        0
    } else {
        1 + segment_prefix_len(s.drop_first())
    }
}

/// A segment prefix is never empty at a non-separator, and never longer
/// than the string.
proof fn lemma_segment_prefix_bounds(s: Seq<char>)
    ensures
        0 <= segment_prefix_len(s) <= s.len(),
        (s.len() > 0 && !is_separator(s[0])) ==> segment_prefix_len(s) >= 1,
    decreases s.len(),
{
    if s.len() > 0 && !is_separator(s[0]) {
        lemma_segment_prefix_bounds(s.drop_first());
    }
}

/// The path split into its components: the maximal nonempty runs of
/// non-separator characters, in order.
pub open spec fn split_components(s: Seq<char>) -> Seq<Seq<char>>
    decreases s.len(),
    via split_components_decreases
{
    if s.len() == 0 {
        Seq::<Seq<char>>::empty()
    } else if is_separator(s[0]) {
        split_components(s.drop_first())
    } else {
        seq![s.take(segment_prefix_len(s))] + split_components(s.skip(segment_prefix_len(s)))
    }
}

#[via_fn]
proof fn split_components_decreases(s: Seq<char>) {
    if s.len() > 0 && !is_separator(s[0]) {
        lemma_segment_prefix_bounds(s);
    }
}

proof fn lemma_segment_prefix(s: Seq<char>, i: int)
    requires
        0 <= i <= s.len(),
        forall|k: int| 0 <= k < i ==> !is_separator(#[trigger] s[k]),
        i < s.len() ==> is_separator(s[i]),
    ensures
        segment_prefix_len(s) == i,
    decreases s.len(),
{
    if i > 0 {
        lemma_segment_prefix(s.drop_first(), i - 1);
    }
}

/// Dropping one leading separator drops nothing from the components.
proof fn lemma_split_skip_separator(s: Seq<char>, i: int)
    requires
        0 <= i <= s.len(),
        forall|k: int| 0 <= k < i ==> is_separator(#[trigger] s[k]),
    ensures
        split_components(s) == split_components(s.skip(i)),
    decreases i,
{
    if i > 0 {
        assert(s.drop_first() =~= s.skip(1));
        assert(s.skip(1).skip(i - 1) =~= s.skip(i));
        lemma_split_skip_separator(s.skip(1), i - 1);
    } else {
        assert(s.skip(0) =~= s);
    }
}

/// Whether the character at `i` is a path separator.
fn separator_at(s: &str, i: usize) -> (r: bool)
    requires
        i < s@.len(),
    ensures
        r == is_separator(s@[i as int]),
{
    let c = s.get_char(i);
    c == '/' || c == '\\'
}

/// Split a path into its components, for resolving it step by step below a
/// filesystem root. Separators in either direction delimit; empty segments
/// vanish.
pub fn path_components(path: &str) -> (r: Vec<String>)
    ensures
        r@.map_values(|c: String| c@) == split_components(path@),
{
    let len = path.unicode_len();
    let mut out: Vec<String> = Vec::new();
    let mut i: usize = 0;
    proof {
        assert(path@.skip(0) =~= path@);
        assert(out@.map_values(|c: String| c@) =~= Seq::<Seq<char>>::empty());
    }
    while i < len
        invariant
            i <= len,
            len == path@.len(),
            split_components(path@) == out@.map_values(|c: String| c@) + split_components(
                path@.skip(i as int),
            ),
        decreases len - i,
    {
        if separator_at(path, i) {
            proof {
                assert(path@.skip(i as int).drop_first() =~= path@.skip(i + 1));
            }
            i = i + 1;
        } else {
            let ghost rest = path@.skip(i as int);
            let start = i;
            let mut j: usize = i;
            while j < len && !separator_at(path, j)
                invariant
                    start <= j <= len,
                    len == path@.len(),
                    forall|k: int| start <= k < j ==> !is_separator(#[trigger] path@[k]),
                decreases len - j,
            {
                j = j + 1;
            }
            proof {
                assert(forall|k: int|
                    0 <= k < j - start ==> !is_separator(#[trigger] rest[k]));
                lemma_segment_prefix(rest, j - start);
                assert(rest.take(j - start) =~= path@.subrange(start as int, j as int));
                assert(rest.skip(j - start) =~= path@.skip(j as int));
            }
            let piece = path.substring_char(start, j).to_owned();
            out.push(piece);
            proof {
                assert(out@.map_values(|c: String| c@) =~= out@.map_values(
                    |c: String| c@,
                ).drop_last().push(path@.subrange(start as int, j as int)));
            }
            i = j;
        }
    }
    proof {
        assert(path@.skip(len as int) =~= Seq::<char>::empty());
    }
    out
}

/// The artefact string for a literal path found on a Windows drive:
/// `L:\relative`, with `:stream` appended only when a stream was asked for —
/// exactly one drive-letter colon and at most one stream colon.
pub open spec fn windows_artefact_spec(
    drive: Seq<char>,
    relative: Seq<char>,
    stream: Seq<char>,
) -> Seq<char> {
    if stream.len() == 0 {
        drive + ":\\"@ + relative
    } else {
        drive + ":\\"@ + relative + ":"@ + stream
    }
}

/// Format the direct-probe artefact string for a literal path found on a
/// Windows drive.
pub fn windows_artefact(drive_letter: &str, file_path: &str, stream: &str) -> (r: String)
    ensures
        r@ == windows_artefact_spec(drive_letter@, file_path@, stream@),
{
    let mut out = drive_letter.to_owned();
    out.append(":\\");
    out.append(file_path);
    if stream.unicode_len() > 0 {
        out.append(":");
        out.append(stream);
    }
    out
}

/// How many separators the string begins with.
pub open spec fn separator_prefix_len(s: Seq<char>) -> int
    decreases s.len(),
{
    if s.len() == 0 || !is_separator(s[0]) {
        0
    } else {
        1 + separator_prefix_len(s.drop_first())
    }
}

proof fn lemma_separator_prefix(s: Seq<char>, i: int)
    requires
        0 <= i <= s.len(),
        forall|k: int| 0 <= k < i ==> is_separator(#[trigger] s[k]),
        i < s.len() ==> !is_separator(s[i]),
    ensures
        separator_prefix_len(s) == i,
    decreases s.len(),
{
    if i > 0 {
        lemma_separator_prefix(s.drop_first(), i - 1);
    }
}

/// A path without its leading separators: what remains of a drive-relative
/// path once the separator after the drive prefix is gone.
pub open spec fn strip_separators_spec(s: Seq<char>) -> Seq<char> {
    s.skip(separator_prefix_len(s))
}

/// Drop the path's leading separators.
pub fn strip_leading_separators(path: &str) -> (r: String)
    ensures
        r@ == strip_separators_spec(path@),
{
    let len = path.unicode_len();
    let mut j: usize = 0;
    while j < len && separator_at(path, j)
        invariant
            j <= len,
            len == path@.len(),
            forall|k: int| 0 <= k < j ==> is_separator(#[trigger] path@[k]),
        decreases len - j,
    {
        j = j + 1;
    }
    proof {
        lemma_separator_prefix(path@, j as int);
    }
    path.substring_char(j, len).to_owned()
}

/// The character for one decimal digit.
pub open spec fn digit_char(d: nat) -> char {
    if d == 0 {
        '0'
    } else if d == 1 {
        '1'
    } else if d == 2 {
        '2'
    } else if d == 3 {
        '3'
    } else if d == 4 {
        '4'
    } else if d == 5 {
        '5'
    } else if d == 6 {
        '6'
    } else if d == 7 {
        '7'
    } else if d == 8 {
        '8'
    } else {
        '9'
    }
}

/// The decimal form of `n`, most significant digit first.
pub open spec fn dec_str(n: nat) -> Seq<char>
    decreases n,
{
    if n < 10 {
        seq![digit_char(n)]
    } else {
        dec_str(n / 10) + seq![digit_char(n % 10)]
    }
}

/// Append the decimal form of `n`.
fn push_decimal(out: &mut String, n: u64)
    ensures
        final(out)@ == old(out)@ + dec_str(n as nat),
    decreases n,
{
    let ghost begun = out@;
    if n >= 10 {
        push_decimal(out, n / 10);
    }
    let d = n % 10;
    let piece: &str = if d == 0 {
        "0"
    } else if d == 1 {
        "1"
    } else if d == 2 {
        "2"
    } else if d == 3 {
        "3"
    } else if d == 4 {
        "4"
    } else if d == 5 {
        "5"
    } else if d == 6 {
        "6"
    } else if d == 7 {
        "7"
    } else if d == 8 {
        "8"
    } else {
        "9"
    };
    proof {
        reveal_strlit("0");
        reveal_strlit("1");
        reveal_strlit("2");
        reveal_strlit("3");
        reveal_strlit("4");
        reveal_strlit("5");
        reveal_strlit("6");
        reveal_strlit("7");
        reveal_strlit("8");
        reveal_strlit("9");
        assert(piece@ =~= seq![digit_char((n % 10) as nat)]);
    }
    out.append(piece);
    proof {
        if n >= 10 {
            assert((begun + dec_str((n / 10) as nat)) + seq![digit_char((n % 10) as nat)] =~= begun
                + dec_str(n as nat));
        } else {
            assert(begun + seq![digit_char(n as nat)] =~= begun + dec_str(n as nat));
        }
    }
}

/// The default archive name: the host's name, an underscore, a millisecond
/// timestamp, and the `.zip` suffix — always an acceptable output path.
pub fn default_output_name(host: &str, millis: u64) -> (r: String)
    ensures
        r@ == host@ + "_"@ + dec_str(millis as nat) + ".zip"@,
        valid_output_path(r@),
{
    let mut out = host.to_owned();
    out.append("_");
    push_decimal(&mut out, millis);
    out.append(".zip");
    proof {
        reveal_strlit(".zip");
        assert(out@ =~= host@ + "_"@ + dec_str(millis as nat) + ".zip"@);
        assert(out@.subrange(out@.len() - 4, out@.len() as int) =~= ".zip"@);
    }
    out
}

/// Whether the output path is acceptable: it must end in `.zip`.
pub open spec fn valid_output_path(s: Seq<char>) -> bool {
    s.len() >= 4 && s.subrange(s.len() - 4, s.len() as int) == ".zip"@
}

/// Check that an output path ends in `.zip`.
pub fn output_path_ok(path: &str) -> (r: bool)
    ensures
        r == valid_output_path(path@),
{
    let len = path.unicode_len();
    if len < 4 {
        return false;
    }
    proof {
        reveal_strlit(".zip");
    }
    let tail = path.substring_char(len - 4, len);
    let ok = tail.get_char(0) == '.' && tail.get_char(1) == 'z' && tail.get_char(2) == 'i'
        && tail.get_char(3) == 'p';
    proof {
        if ok {
            assert(path@.subrange(len - 4, len as int) =~= ".zip"@);
        } else {
            assert(path@.subrange(len - 4, len as int) != ".zip"@);
        }
    }
    ok
}

} // verus!
