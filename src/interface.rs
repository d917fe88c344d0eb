//! The files that make up the generated C interface of one FPGA project,
//! found from the project's custom header.

use vstd::prelude::*;
use crate::naming::last_index_of;
use crate::text::{chars_of, is_prefix, push_str, slice_chars, starts_with, string_of};

verus! {

/// The position of the last path separator (`/` or `\`), or -1.
pub open spec fn last_separator(s: Seq<char>) -> int
    decreases s.len(),
{
    if s.len() == 0 {
        -1
    } else if s.last() == '/' || s.last() == '\\' {
        s.len() - 1
    } else {
        last_separator(s.drop_last())
    }
}

/// The folder part of a path, with its final separator.
pub open spec fn folder_of(path: Seq<char>) -> Seq<char> {
    path.take(last_separator(path) + 1)
}

/// The file name part of a path.
pub open spec fn file_name_of(path: Seq<char>) -> Seq<char> {
    path.skip(last_separator(path) + 1)
}

/// A file name without its extension (a leading dot starts no extension).
pub open spec fn stem_of(name: Seq<char>) -> Seq<char> {
    let d = last_index_of(name, '.');
    if d > 0 {
        name.take(d)
    } else {
        name
    }
}

/// The interface name of a custom header `NiFpga_<name>.h`.
pub open spec fn interface_name_of(header: Seq<char>) -> Option<Seq<char>> {
    let stem = stem_of(file_name_of(header));
    if is_prefix("NiFpga_"@, stem) {
        Some(stem.skip(7))
    } else {
        None
    }
}

proof fn lemma_last_separator_bounds(s: Seq<char>)
    ensures
        -1 <= last_separator(s) < s.len(),
    decreases s.len(),
{
    if s.len() > 0 && !(s.last() == '/' || s.last() == '\\') {
        lemma_last_separator_bounds(s.drop_last());
    }
}

proof fn lemma_last_index_bounds(s: Seq<char>, c: char)
    ensures
        -1 <= last_index_of(s, c) < s.len(),
    decreases s.len(),
{
    if s.len() > 0 && s.last() != c {
        lemma_last_index_bounds(s.drop_last(), c);
    }
}

fn last_position(s: &[char], c: char) -> (r: usize)
    ensures
        r as int == last_index_of(s@, c) + 1,
{
    let mut i: usize = s.len();
    assert(s@.subrange(0, i as int) =~= s@);
    while i > 0 && s[i - 1] != c
        invariant
            i <= s@.len(),
            last_index_of(s@, c) == last_index_of(s@.subrange(0, i as int), c),
        decreases i,
    {
        assert(s@.subrange(0, i as int).drop_last() =~= s@.subrange(0, i - 1));
        i = i - 1;
    }
    proof {
        if i == 0 {
            assert(s@.subrange(0, 0) =~= Seq::<char>::empty());
        }
    }
    i
}

fn after_last_separator(s: &[char]) -> (r: usize)
    ensures
        r as int == last_separator(s@) + 1,
{
    let mut i: usize = s.len();
    assert(s@.subrange(0, i as int) =~= s@);
    while i > 0 && s[i - 1] != '/' && s[i - 1] != '\\'
        invariant
            i <= s@.len(),
            last_separator(s@) == last_separator(s@.subrange(0, i as int)),
        decreases i,
    {
        assert(s@.subrange(0, i as int).drop_last() =~= s@.subrange(0, i - 1));
        i = i - 1;
    }
    proof {
        if i == 0 {
            assert(s@.subrange(0, 0) =~= Seq::<char>::empty());
        }
    }
    i
}

/// The generated C interface of one FPGA project: the common source and
/// header, the custom header, the custom source where there is one, the interface
/// name and the sysroot to compile against.
#[derive(Debug, Clone)]
pub struct FpgaCInterface {
    pub common_c: String,
    pub common_h: String,
    pub custom_h: String,
    pub custom_c: Option<String>,
    pub interface_name: String,
    pub sysroot: Option<String>,
}

impl FpgaCInterface {
    /// The interface of the custom header `fpga_header` (a path ending in
    /// `NiFpga_<name>.h`). The common source `NiFpga.c` and header
    /// `NiFpga.h` are taken from the header's folder; the custom source is not looked for here. A header
    /// whose file name does not start with `NiFpga_` gives `None`.
    pub fn from_custom_header(fpga_header: &str) -> (r: Option<Self>)
        ensures
            match interface_name_of(fpga_header@) {
                None => r is None,
                Some(name) => r matches Some(i) && i.interface_name@ == name && i.custom_h@
                    == fpga_header@ && i.common_c@ == folder_of(fpga_header@) + "NiFpga.c"@
                    && i.common_h@ == folder_of(fpga_header@) + "NiFpga.h"@
                    && i.custom_c is None && i.sysroot is None,
            },
    {
        let path = chars_of(fpga_header);
        let start = after_last_separator(path.as_slice());
        proof {
            lemma_last_separator_bounds(path@);
        }
        let file = slice_chars(path.as_slice(), start, path.len());
        assert(file@ =~= file_name_of(fpga_header@));
        let dot = last_position(file.as_slice(), '.');
        proof {
            lemma_last_index_bounds(file@, '.');
        }
        let stem = if dot > 1 {
            slice_chars(file.as_slice(), 0, dot - 1)
        } else {
            file
        };
        assert(stem@ =~= stem_of(file_name_of(fpga_header@)));
        let marker = chars_of("NiFpga_");
        proof {
            reveal_strlit("NiFpga_");
        }
        if !starts_with(stem.as_slice(), marker.as_slice()) {
            return None;
        }
        let name = slice_chars(stem.as_slice(), 7, stem.len());
        let folder = slice_chars(path.as_slice(), 0, start);
        assert(folder@ =~= folder_of(fpga_header@));
        let mut common_c = string_of(folder.as_slice());
        push_str(&mut common_c, "NiFpga.c");
        let mut common_h = string_of(folder.as_slice());
        push_str(&mut common_h, "NiFpga.h");
        Some(
            FpgaCInterface {
                common_c,
                common_h,
                custom_h: string_of(path.as_slice()),
                custom_c: None,
                interface_name: string_of(name.as_slice()),
                sysroot: None,
            },
        )
    }

    /// The custom source `NiFpga_<name>.c` that would sit beside the
    /// header.
    pub fn custom_c_candidate(&self) -> (r: String)
        ensures
            r@ == folder_of(self.custom_h@) + "NiFpga_"@ + self.interface_name@ + ".c"@,
    {
        let path = chars_of(self.custom_h.as_str());
        let start = after_last_separator(path.as_slice());
        proof {
            lemma_last_separator_bounds(path@);
        }
        let folder = slice_chars(path.as_slice(), 0, start);
        let mut r = string_of(folder.as_slice());
        push_str(&mut r, "NiFpga_");
        push_str(&mut r, self.interface_name.as_str());
        push_str(&mut r, ".c");
        r
    }

    /// Records that the custom source exists and is to be compiled.
    pub fn use_custom_c(&mut self)
        ensures
            final(self).custom_c matches Some(c) && c@ == folder_of(old(self).custom_h@) + "NiFpga_"@
                + old(self).interface_name@ + ".c"@,
            final(self).common_c == old(self).common_c,
            final(self).common_h == old(self).common_h,
            final(self).custom_h == old(self).custom_h,
            final(self).interface_name == old(self).interface_name,
            final(self).sysroot == old(self).sysroot,
    {
        let c = self.custom_c_candidate();
        self.custom_c = Some(c);
    }

    /// Sets the sysroot for the C compiler, for cross compiling.
    pub fn sysroot(&mut self, sysroot: &str)
        ensures
            final(self).sysroot matches Some(s) && s@ == sysroot@,
            final(self).common_c == old(self).common_c,
            final(self).common_h == old(self).common_h,
            final(self).custom_h == old(self).custom_h,
            final(self).custom_c == old(self).custom_c,
            final(self).interface_name == old(self).interface_name,
    {
        let cs = chars_of(sysroot);
        self.sysroot = Some(string_of(cs.as_slice()));
    }

    /// The compiler flag that selects the sysroot, if one is set.
    pub fn sysroot_flag(&self) -> (r: Option<String>)
        ensures
            match self.sysroot {
                None => r is None,
                Some(s) => r matches Some(f) && f@ == "--sysroot="@ + s@,
            },
    {
        match &self.sysroot {
            None => None,
            Some(s) => {
                let mut flag = String::new();
                push_str(&mut flag, "--sysroot=");
                push_str(&mut flag, s.as_str());
                Some(flag)
            },
        }
    }

    /// The C sources to compile: the common source, then the custom one.
    pub fn c_sources(&self) -> (r: Vec<String>)
        ensures
            r@.len() == (if self.custom_c is Some { 2int } else { 1int }),
            r@[0]@ == self.common_c@,
            self.custom_c matches Some(c) ==> r@[1]@ == c@,
    {
        let mut r: Vec<String> = Vec::new();
        r.push(self.common_c.clone());
        match &self.custom_c {
            Some(c) => r.push(c.clone()),
            None => {},
        }
        r
    }

    /// The name of the generated file: `NiFpga_<name>.rs`.
    pub fn output_file_name(&self) -> (r: String)
        ensures
            r@ == "NiFpga_"@ + self.interface_name@ + ".rs"@,
    {
        let mut r = String::new();
        push_str(&mut r, "NiFpga_");
        push_str(&mut r, self.interface_name.as_str());
        push_str(&mut r, ".rs");
        r
    }
}

} // verus!
