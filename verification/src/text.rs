//! Human-readable text: fixed-width upper-case hexadecimal numbers, hex dumps
//! of words, and the `prefix[first-last]` ranges of numbered names.
use vstd::prelude::*;
use vstd::string::*;
use vstd::bytes::{spec_u64_to_le_bytes, u64_to_le_bytes, lemma_auto_spec_u64_to_from_le_bytes};
use crate::naming::{zero_padded, push_zero_padded, decimal, push_decimal, decimal_width};
use crate::page::PageView;

verus! {

/// The upper-case character of a hexadecimal digit.
pub open spec fn hex_digit_char(d: nat) -> char {
    if d < 10 { (48 + d) as char } else { (55 + d) as char }
}

/// The last `width` hexadecimal digits of `n`, upper case, most significant
/// first (`format!("{:0width$X}", n)` when `n < 16^width`).
pub open spec fn hex_fixed(n: nat, width: nat) -> Seq<char>
    decreases width,
{
    if width == 0 {
        Seq::empty()
    } else {
        hex_fixed(n / 16, (width - 1) as nat).push(hex_digit_char(n % 16))
    }
}

/// The string of one hexadecimal digit.
fn hex_digit_str(d: u64) -> (s: &'static str)
    requires
        d < 16,
    ensures
        s@ == seq![hex_digit_char(d as nat)],
{
    proof {
        reveal_strlit("0");
        reveal_strlit("1");
        reveal_strlit("2");
        reveal_strlit("3");
        reveal_strlit("4");
        reveal_strlit("5");
        reveal_strlit("6");
        reveal_strlit("7");
        reveal_strlit("8");
        reveal_strlit("9");
        reveal_strlit("A");
        reveal_strlit("B");
        reveal_strlit("C");
        reveal_strlit("D");
        reveal_strlit("E");
        reveal_strlit("F");
    }
    let s = match d {
        0 => "0",
        1 => "1",
        2 => "2",
        3 => "3",
        4 => "4",
        5 => "5",
        6 => "6",
        7 => "7",
        8 => "8",
        9 => "9",
        10 => "A",
        11 => "B",
        12 => "C",
        13 => "D",
        14 => "E",
        _ => "F",
    };
    assert(s@ =~= seq![hex_digit_char(d as nat)]);
    s
}

/// Appends the last `width` hexadecimal digits of `n`, upper case.
pub fn push_hex_fixed(s: &mut String, n: u64, width: usize)
    ensures
        final(s)@ == old(s)@ + hex_fixed(n as nat, width as nat),
    decreases width,
{
    if width > 0 {
        push_hex_fixed(s, n / 16, width - 1);
        s.append(hex_digit_str(n % 16));
        assert(hex_fixed(n as nat, width as nat) == hex_fixed((n / 16) as nat, (width - 1) as nat).push(
            hex_digit_char((n % 16) as nat),
        ));
    }
}

/// The bytes as upper-case hexadecimal pairs separated by single spaces.
pub open spec fn hex_pairs(bs: Seq<u8>) -> Seq<char>
    decreases bs.len(),
{
    if bs.len() == 0 {
        Seq::empty()
    } else if bs.len() == 1 {
        hex_fixed(bs[0] as nat, 2)
    } else {
        hex_pairs(bs.drop_last()) + seq![' '] + hex_fixed(bs.last() as nat, 2)
    }
}

/// The dump line of one word: its eight bytes, most significant first, as
/// hexadecimal pairs, then a line break.
pub open spec fn word_line(w: u64) -> Seq<char> {
    hex_pairs(spec_u64_to_le_bytes(w).reverse()) + seq!['\n']
}

/// The dump lines of the words, one after another.
pub open spec fn word_lines(ws: Seq<u64>) -> Seq<char>
    decreases ws.len(),
{
    if ws.len() == 0 {
        Seq::empty()
    } else {
        word_lines(ws.drop_last()) + word_line(ws.last())
    }
}

/// Appends the dump line of `w`.
pub fn push_word_line(s: &mut String, w: u64)
    ensures
        final(s)@ == old(s)@ + word_line(w),
{
    proof { lemma_auto_spec_u64_to_from_le_bytes(); }
    let le: Vec<u8> = u64_to_le_bytes(w);
    let ghost be = le@.reverse();
    let ghost start = s@;
    push_hex_fixed(s, le[7] as u64, 2);
    let mut k: usize = 1;
    while k < 8
        invariant
            1 <= k <= 8,
            le@.len() == 8,
            be == le@.reverse(),
            s@ == start + hex_pairs(be.subrange(0, k as int)),
        decreases 8 - k,
    {
        proof { reveal_strlit(" "); }
        s.append(" ");
        push_hex_fixed(s, le[7 - k] as u64, 2);
        proof {
            let t = be.subrange(0, k + 1);
            assert(t.drop_last() =~= be.subrange(0, k as int));
            assert(t.last() == le@[7 - k as int]);
        }
        k = k + 1;
    }
    proof {
        reveal_strlit("\n");
        assert(be.subrange(0, 8) =~= be);
        assert(be.subrange(0, 1) =~= seq![le@[7]]);
    }
    s.append("\n");
}

/// Appends the dump lines of `ws`.
pub fn push_word_lines(s: &mut String, ws: &[u64])
    ensures
        final(s)@ == old(s)@ + word_lines(ws@),
{
    let ghost start = s@;
    let mut i: usize = 0;
    while i < ws.len()
        invariant
            i <= ws@.len(),
            s@ == start + word_lines(ws@.subrange(0, i as int)),
        decreases ws.len() - i,
    {
        push_word_line(s, ws[i]);
        proof {
            let t = ws@.subrange(0, i + 1);
            assert(t.drop_last() =~= ws@.subrange(0, i as int));
        }
        i = i + 1;
    }
    assert(ws@.subrange(0, ws@.len() as int) =~= ws@);
}

/// `prefix[first-last]` for the numbered names `0..=last`, each number
/// zero-padded to `width` digits.
pub open spec fn name_range(prefix: Seq<char>, last: nat, width: nat) -> Seq<char> {
    prefix + seq!['['] + zero_padded(0, width) + seq!['-'] + zero_padded(last, width) + seq![']']
}

/// Appends `prefix[first-last]` for the names numbered `0..=last`.
pub fn push_name_range(s: &mut String, prefix: &str, last: u64, width: usize)
    ensures
        final(s)@ == old(s)@ + name_range(prefix@, last as nat, width as nat),
{
    let ghost start = s@;
    s.append(prefix);
    proof { reveal_strlit("["); }
    s.append("[");
    push_zero_padded(s, 0, width);
    proof { reveal_strlit("-"); }
    s.append("-");
    push_zero_padded(s, last, width);
    proof { reveal_strlit("]"); }
    s.append("]");
    assert(s@ =~= start + name_range(prefix@, last as nat, width as nat));
}

/// The lower-case character of a hexadecimal digit.
pub open spec fn lower_hex_digit_char(d: nat) -> char {
    if d < 10 { (48 + d) as char } else { (87 + d) as char }
}

/// The lower-case hexadecimal representation of `n`, without leading zeros.
pub open spec fn lower_hex(n: nat) -> Seq<char>
    decreases n,
{
    if n < 16 {
        seq![lower_hex_digit_char(n)]
    } else {
        lower_hex(n / 16).push(lower_hex_digit_char(n % 16))
    }
}

/// The string of one lower-case hexadecimal digit.
fn lower_hex_digit_str(d: u64) -> (s: &'static str)
    requires
        d < 16,
    ensures
        s@ == seq![lower_hex_digit_char(d as nat)],
{
    if d < 10 {
        let s = hex_digit_str(d);
        assert(hex_digit_char(d as nat) == lower_hex_digit_char(d as nat));
        return s;
    }
    proof {
        reveal_strlit("a");
        reveal_strlit("b");
        reveal_strlit("c");
        reveal_strlit("d");
        reveal_strlit("e");
        reveal_strlit("f");
    }
    let s = match d {
        10 => "a",
        11 => "b",
        12 => "c",
        13 => "d",
        14 => "e",
        _ => "f",
    };
    assert(s@ =~= seq![lower_hex_digit_char(d as nat)]);
    s
}

/// Appends the lower-case hexadecimal representation of `n`.
pub fn push_lower_hex(s: &mut String, n: u64)
    ensures
        final(s)@ == old(s)@ + lower_hex(n as nat),
    decreases n,
{
    if n >= 16 {
        push_lower_hex(s, n / 16);
    }
    s.append(lower_hex_digit_str(n % 16));
    assert(n >= 16 ==> lower_hex(n as nat) == lower_hex((n / 16) as nat).push(lower_hex_digit_char((n % 16) as nat)));
}

/// Whether `{:?}` writes `c` as a `\u{..}` escape because it is a control
/// character (C0, DEL or C1) without a short escape.
pub open spec fn is_control_escape(c: char) -> bool {
    &&& c != '\0' && c != '\t' && c != '\r' && c != '\n'
    &&& ((c as u32) < 0x20 || (0x7f <= (c as u32) && (c as u32) < 0xa0))
}

/// How `{:?}` writes one character inside a quoted string: the short escapes
/// `\0 \t \r \n \\ \"`, `\u{..}` for the other control characters, and any
/// other character as itself.
pub open spec fn debug_char(c: char) -> Seq<char> {
    if c == '\0' {
        seq!['\\', '0']
    } else if c == '\t' {
        seq!['\\', 't']
    } else if c == '\r' {
        seq!['\\', 'r']
    } else if c == '\n' {
        seq!['\\', 'n']
    } else if c == '\\' {
        seq!['\\', '\\']
    } else if c == '"' {
        seq!['\\', '"']
    } else if is_control_escape(c) {
        seq!['\\', 'u', '{'] + lower_hex(c as nat) + seq!['}']
    } else {
        seq![c]
    }
}

/// The characters of `s`, each as `{:?}` writes it inside a string.
pub open spec fn debug_chars(s: Seq<char>) -> Seq<char>
    decreases s.len(),
{
    if s.len() == 0 {
        Seq::empty()
    } else {
        debug_chars(s.drop_last()) + debug_char(s.last())
    }
}

/// `s` between double quotes, escaped as `{:?}` writes a string.
pub open spec fn debug_quoted(s: Seq<char>) -> Seq<char> {
    seq!['"'] + debug_chars(s) + seq!['"']
}

/// Appends character `i` of `src` as `{:?}` writes it inside a string.
fn push_debug_char(s: &mut String, src: &str, i: usize)
    requires
        i < src@.len() <= usize::MAX,
    ensures
        final(s)@ == old(s)@ + debug_char(src@[i as int]),
{
    let c: char = src.get_char(i);
    let code: u32 = c as u32;
    proof {
        reveal_strlit("\\0");
        reveal_strlit("\\t");
        reveal_strlit("\\r");
        reveal_strlit("\\n");
        reveal_strlit("\\\\");
        reveal_strlit("\\\"");
        reveal_strlit("\\u{");
        reveal_strlit("}");
    }
    if c == '\0' {
        s.append("\\0");
    } else if c == '\t' {
        s.append("\\t");
    } else if c == '\r' {
        s.append("\\r");
    } else if c == '\n' {
        s.append("\\n");
    } else if c == '\\' {
        s.append("\\\\");
    } else if c == '"' {
        s.append("\\\"");
    } else if code < 0x20 || (0x7f <= code && code < 0xa0) {
        let ghost start = s@;
        s.append("\\u{");
        push_lower_hex(s, code as u64);
        s.append("}");
        assert(s@ =~= start + debug_char(c));
    } else {
        s.append(src.substring_char(i, i + 1));
        assert(src@.subrange(i as int, i + 1) =~= seq![c]);
    }
}

/// Appends `src` between double quotes, escaped as `{:?}` writes a string.
pub fn push_debug_quoted(s: &mut String, src: &str)
    ensures
        final(s)@ == old(s)@ + debug_quoted(src@),
{
    let ghost start = s@;
    proof { reveal_strlit("\""); }
    s.append("\"");
    let n: usize = src.unicode_len();
    let mut i: usize = 0;
    while i < n
        invariant
            i <= n,
            n == src@.len(),
            s@ == start + seq!['"'] + debug_chars(src@.subrange(0, i as int)),
        decreases n - i,
    {
        push_debug_char(s, src, i);
        proof {
            let t = src@.subrange(0, i + 1);
            assert(t.drop_last() =~= src@.subrange(0, i as int));
        }
        i = i + 1;
    }
    proof { reveal_strlit("\""); }
    s.append("\"");
    assert(src@.subrange(0, n as int) =~= src@);
    assert(s@ =~= start + debug_quoted(src@));
}

/// The description of a page: its four metadata words as 16-digit
/// hexadecimal numbers, then a dump of its payload, one word per line
/// (the text of the page's `Display`).
pub open spec fn page_text(v: PageView) -> Seq<char> {
    "Seed:    0x"@ + hex_fixed(v.seed as nat, 16) + seq!['\n']
        + "FileID:  0x"@ + hex_fixed(v.file as nat, 16) + seq!['\n']
        + "PageID:  0x"@ + hex_fixed(v.page as nat, 16) + seq!['\n']
        + "MutCnt:  0x"@ + hex_fixed(v.mutations as nat, 16) + seq!['\n']
        + "Data:"@ + seq!['\n']
        + word_lines(v.data)
}

/// Appends a label, a 16-digit hexadecimal number and a line break.
fn push_hex_line(s: &mut String, label: &str, n: u64)
    ensures
        final(s)@ == old(s)@ + label@ + hex_fixed(n as nat, 16) + seq!['\n'],
{
    let ghost start = s@;
    s.append(label);
    push_hex_fixed(s, n, 16);
    proof { reveal_strlit("\n"); }
    s.append("\n");
    assert(s@ =~= start + label@ + hex_fixed(n as nat, 16) + seq!['\n']);
}

/// The description of the page with the given metadata and payload.
pub fn page_description(seed: u64, file: u64, page: u64, mutations: u64, data: &[u64]) -> (s: String)
    ensures
        s@ == page_text(PageView { seed, file, page, mutations, data: data@ }),
{
    let mut s = String::new();
    push_hex_line(&mut s, "Seed:    0x", seed);
    push_hex_line(&mut s, "FileID:  0x", file);
    push_hex_line(&mut s, "PageID:  0x", page);
    push_hex_line(&mut s, "MutCnt:  0x", mutations);
    s.append("Data:");
    proof { reveal_strlit("\n"); }
    s.append("\n");
    push_word_lines(&mut s, data);
    assert(s@ =~= page_text(PageView { seed, file, page, mutations, data: data@ }));
    s
}

/// The layout lines of a bookcase description: its root, then the ranges of
/// its shelf names `0..dcount` and book names `0..fcount`, each number padded
/// to the digits of its count.
pub open spec fn layout_lines(root: Seq<char>, dprefix: Seq<char>, dcount: nat, fprefix: Seq<char>, fcount: nat) -> Seq<char> {
    "Root:............ "@ + root + seq!['\n']
        + "Directory Name:.. "@ + name_range(dprefix, (dcount - 1) as nat, decimal(dcount).len()) + seq!['\n']
        + "File Name:....... "@ + name_range(fprefix, (fcount - 1) as nat, decimal(fcount).len()) + seq!['\n']
}

/// Appends the layout lines of a bookcase description.
pub fn push_layout_lines(s: &mut String, root: &str, dprefix: &str, dcount: u64, fprefix: &str, fcount: u64)
    requires
        dcount > 0,
        fcount > 0,
    ensures
        final(s)@ == old(s)@ + layout_lines(root@, dprefix@, dcount as nat, fprefix@, fcount as nat),
{
    let ghost start = s@;
    let dwidth: usize = decimal_width(dcount) as usize;
    let fwidth: usize = decimal_width(fcount) as usize;
    proof { reveal_strlit("\n"); }
    s.append("Root:............ ");
    s.append(root);
    s.append("\n");
    s.append("Directory Name:.. ");
    push_name_range(s, dprefix, dcount - 1, dwidth);
    s.append("\n");
    s.append("File Name:....... ");
    push_name_range(s, fprefix, fcount - 1, fwidth);
    s.append("\n");
    assert(s@ =~= start + layout_lines(root@, dprefix@, dcount as nat, fprefix@, fcount as nat));
}

/// The page lines of a scribe bookcase description: page size and count.
pub open spec fn page_lines(page_size: nat, page_count: nat) -> Seq<char> {
    "Page Size:....... "@ + decimal(page_size) + seq!['\n']
        + "Page Count:...... "@ + decimal(page_count) + seq!['\n']
}

/// Appends the page lines of a scribe bookcase description.
pub fn push_page_lines(s: &mut String, page_size: u64, page_count: u64)
    ensures
        final(s)@ == old(s)@ + page_lines(page_size as nat, page_count as nat),
{
    let ghost start = s@;
    proof { reveal_strlit("\n"); }
    s.append("Page Size:....... ");
    push_decimal(s, page_size);
    s.append("\n");
    s.append("Page Count:...... ");
    push_decimal(s, page_count);
    s.append("\n");
    assert(s@ =~= start + page_lines(page_size as nat, page_count as nat));
}

} // verus!
