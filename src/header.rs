//! Preparation of a header for parsing: a preamble of the primitive
//! types the header relies on, then the header without its `#include`
//! lines.

use vstd::prelude::*;
use crate::text::{chars_of, is_prefix, push_all, push_str, slice_chars, starts_with};

verus! {

/// The length of the first line of `s`, up to its first newline.
pub open spec fn line_len(s: Seq<char>) -> nat
    decreases s.len(),
{
    if s.len() == 0 || s[0] == '\n' {
        0
    } else {
        1 + line_len(s.drop_first())
    }
}

/// A line ended by a newline loses a carriage return before it.
pub open spec fn strip_cr(line: Seq<char>) -> Seq<char> {
    if line.len() > 0 && line.last() == '\r' {
        line.drop_last()
    } else {
        line
    }
}

/// The lines of a text, without their line endings; a final newline
/// does not start another line.
pub open spec fn lines_of(s: Seq<char>) -> Seq<Seq<char>>
    decreases s.len(),
{
    if s.len() == 0 {
        Seq::empty()
    } else {
        let k = line_len(s);
        if k < s.len() {
            seq![strip_cr(s.take(k as int))] + lines_of(s.skip(k + 1 as int))
        } else {
            seq![s]
        }
    }
}

/// A line that the preparation drops: one that starts with `#include`.
pub open spec fn is_include_line(line: Seq<char>) -> bool {
    is_prefix("#include"@, line)
}

/// The kept lines, each followed by a newline.
pub open spec fn kept_text(lines: Seq<Seq<char>>) -> Seq<char>
    decreases lines.len(),
{
    if lines.len() == 0 {
        Seq::empty()
    } else {
        (if is_include_line(lines[0]) {
            Seq::empty()
        } else {
            lines[0] + "\n"@
        }) + kept_text(lines.drop_first())
    }
}

/// The primitive types and the fixed-point type information record that
/// the generated headers use, declared so that a header parses on its own.
pub open spec fn preamble() -> Seq<char> {
    "
typedef unsigned char uint8_t;
typedef short int16_t;
typedef int int32_t;
typedef unsigned int uint32_t;
typedef unsigned long long uint64_t;
typedef long long int64_t;
typedef uint8_t NiFpga_Bool;

typedef struct NiFpga_FxpTypeInfo
{
    NiFpga_Bool isSigned;
    uint8_t wordLength;
    int16_t integerWordLength;
} NiFpga_FxpTypeInfo;

"@
}

/// The prepared text of a header.
pub open spec fn prepared_header(content: Seq<char>) -> Seq<char> {
    preamble() + kept_text(lines_of(content))
}

proof fn lemma_line_len(s: Seq<char>, k: int)
    requires
        0 <= k <= s.len(),
        forall|i: int| 0 <= i < k ==> s[i] != '\n',
        k == s.len() || s[k] == '\n',
    ensures
        line_len(s) == k,
    decreases k,
{
    if k > 0 {
        lemma_line_len(s.drop_first(), k - 1);
    }
}

/// The header text prepared for parsing: the preamble, then every line
/// of `content` except those that start with `#include`, each ended by a
/// newline.
pub fn header_without_includes(content: &str) -> (r: String)
    ensures
        r@ == prepared_header(content@),
{
    let s = chars_of(content);
    let directive = chars_of("#include");
    let mut out = String::new();
    push_str(
        &mut out,
        "
typedef unsigned char uint8_t;
typedef short int16_t;
typedef int int32_t;
typedef unsigned int uint32_t;
typedef unsigned long long uint64_t;
typedef long long int64_t;
typedef uint8_t NiFpga_Bool;

typedef struct NiFpga_FxpTypeInfo
{
    NiFpga_Bool isSigned;
    uint8_t wordLength;
    int16_t integerWordLength;
} NiFpga_FxpTypeInfo;

",
    );
    let n = s.len();
    let mut start: usize = 0;
    assert(s@.subrange(0, n as int) =~= s@);
    while start < n
        invariant
            s@ == content@,
            n == s@.len(),
            directive@ == "#include"@,
            start <= n,
            prepared_header(content@) == out@ + kept_text(lines_of(s@.subrange(start as int, n as int))),
        decreases n - start,
    {
        let mut j: usize = start;
        while j < n && s[j] != '\n'
            invariant
                start <= j <= n,
                n == s@.len(),
                forall|i: int| start <= i < j ==> s@[i] != '\n',
            decreases n - j,
        {
            j = j + 1;
        }
        let ghost sub = s@.subrange(start as int, n as int);
        proof {
            lemma_line_len(sub, j - start);
        }
        if j < n {
            let mut end = j;
            if end > start && s[end - 1] == '\r' {
                end = end - 1;
            }
            let line = slice_chars(s.as_slice(), start, end);
            proof {
                assert(line@ =~= strip_cr(sub.take(j - start)));
                assert(sub.skip(j - start + 1) =~= s@.subrange(j + 1, n as int));
                let ls = lines_of(sub);
                assert(ls[0] == line@);
                assert(ls.drop_first() =~= lines_of(s@.subrange(j + 1, n as int)));
            }
            let keep = !starts_with(line.as_slice(), directive.as_slice());
            if keep {
                push_all(&mut out, line.as_slice());
                push_str(&mut out, "\n");
            }
            assert(prepared_header(content@) =~= out@ + kept_text(lines_of(s@.subrange(j + 1, n as int))));
            start = j + 1;
        } else {
            let line = slice_chars(s.as_slice(), start, n);
            proof {
                assert(line@ =~= sub);
                let ls = lines_of(sub);
                assert(ls =~= seq![sub]);
                assert(ls.drop_first() =~= Seq::<Seq<char>>::empty());
            }
            let keep = !starts_with(line.as_slice(), directive.as_slice());
            if keep {
                push_all(&mut out, line.as_slice());
                push_str(&mut out, "\n");
            }
            proof {
                assert(s@.subrange(n as int, n as int) =~= Seq::<char>::empty());
                assert(prepared_header(content@) =~= out@ + kept_text(lines_of(s@.subrange(n as int, n as int))));
            }
            start = n;
        }
    }
    proof {
        assert(s@.subrange(n as int, n as int) =~= Seq::<char>::empty());
        assert(out@ =~= out@ + Seq::<char>::empty());
    }
    out
}

} // verus!
