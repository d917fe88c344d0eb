//! Extraction of a named string constant, such as the interface signature.

use vstd::prelude::*;
use crate::c_model::{Declaration, Expression, InitDeclarator, Initializer};
use crate::text::{chars_eq, chars_of, slice_chars, string_of};

verus! {

/// `s` without its leading quote characters.
pub open spec fn trim_leading_quotes(s: Seq<char>) -> Seq<char>
    decreases s.len(),
{
    if s.len() > 0 && s[0] == '"' {
        trim_leading_quotes(s.drop_first())
    } else {
        s
    }
}

/// `s` without its trailing quote characters.
pub open spec fn trim_trailing_quotes(s: Seq<char>) -> Seq<char>
    decreases s.len(),
{
    if s.len() > 0 && s.last() == '"' {
        trim_trailing_quotes(s.drop_last())
    } else {
        s
    }
}

/// A string literal's text with the surrounding quotes taken off.
pub open spec fn unquoted(s: Seq<char>) -> Seq<char> {
    trim_trailing_quotes(trim_leading_quotes(s))
}

/// The text of an initializer that is a string literal.
pub open spec fn string_constant(init: Initializer) -> Option<Seq<char>> {
    match init {
        Initializer::Expression(Expression::StringLiteral(pieces)) => if pieces@.len() > 0 {
            Some(unquoted(pieces@[0]@))
        } else {
            None
        },
        _ => None,
    }
}

/// The value after looking at one declarator: the first match is kept;
/// a declarator of the sought name with an initializer sets the value to
/// what that initializer holds as a string literal.
pub open spec fn visit_declarator(name: Seq<char>, d: InitDeclarator, found: Option<Seq<char>>) -> Option<Seq<char>> {
    if found is Some {
        found
    } else {
        match (d.identifier, d.initializer) {
            (Some(id), Some(init)) => if id@ == name {
                string_constant(init)
            } else {
                found
            },
            _ => found,
        }
    }
}

pub open spec fn visit_declarators(name: Seq<char>, ds: Seq<InitDeclarator>, found: Option<Seq<char>>) -> Option<Seq<char>>
    decreases ds.len(),
{
    if ds.len() == 0 {
        found
    } else {
        visit_declarators(name, ds.drop_first(), visit_declarator(name, ds[0], found))
    }
}

pub open spec fn visit_declarations(name: Seq<char>, ds: Seq<Declaration>, found: Option<Seq<char>>) -> Option<Seq<char>>
    decreases ds.len(),
{
    if ds.len() == 0 {
        found
    } else {
        visit_declarations(name, ds.drop_first(), visit_declarators(name, ds[0].declarators@, found))
    }
}

/// The identifier `NiFpga_<prefix>_<suffix>`.
pub open spec fn constant_identifier(prefix: Seq<char>, suffix: Seq<char>) -> Seq<char> {
    "NiFpga_"@ + prefix + "_"@ + suffix
}

/// The string value of the constant `NiFpga_<prefix>_<suffix>` in a
/// header: the first declarator of that name whose initializer is a
/// string literal supplies it.
pub open spec fn string_constant_value(prefix: Seq<char>, suffix: Seq<char>, ds: Seq<Declaration>) -> Option<Seq<char>> {
    visit_declarations(constant_identifier(prefix, suffix), ds, None)
}

/// The text of a string literal without its surrounding quotes.
pub fn trim_quotes(s: &[char]) -> (r: Vec<char>)
    ensures
        r@ == unquoted(s@),
{
    let mut start: usize = 0;
    assert(s@.subrange(0, s@.len() as int) =~= s@);
    while start < s.len() && s[start] == '"'
        invariant
            start <= s@.len(),
            trim_leading_quotes(s@) == trim_leading_quotes(s@.subrange(start as int, s@.len() as int)),
        decreases s@.len() - start,
    {
        proof {
            assert(s@.subrange(start as int, s@.len() as int).drop_first() =~= s@.subrange(start + 1, s@.len() as int));
        }
        start = start + 1;
    }
    let mut end: usize = s.len();
    let ghost lead = s@.subrange(start as int, s@.len() as int);
    assert(lead.subrange(0, lead.len() as int) =~= lead);
    while end > start && s[end - 1] == '"'
        invariant
            start <= end <= s@.len(),
            lead == s@.subrange(start as int, s@.len() as int),
            trim_trailing_quotes(lead) == trim_trailing_quotes(lead.subrange(0, end - start)),
        decreases end,
    {
        proof {
            assert(lead.subrange(0, end - start).drop_last() =~= lead.subrange(0, end - 1 - start));
        }
        end = end - 1;
    }
    proof {
        assert(lead.subrange(0, end - start) =~= s@.subrange(start as int, end as int));
    }
    slice_chars(s, start, end)
}

/// Extract the text of an initializer that is a string literal.
pub fn string_constant_from_initializer(init: &Initializer) -> (r: Option<String>)
    ensures
        match r {
            None => string_constant(*init) is None,
            Some(v) => string_constant(*init) == Some(v@),
        },
{
    match init {
        Initializer::Expression(Expression::StringLiteral(pieces)) => {
            if pieces.len() > 0 {
                let literal = chars_of(pieces[0].as_str());
                let trimmed = trim_quotes(literal.as_slice());
                Some(string_of(trimmed.as_slice()))
            } else {
                None
            }
        },
        _ => None,
    }
}

/// Finds the string constant `NiFpga_<prefix>_<suffix>`.
pub struct StringConstantVisitor {
    pub name: Vec<char>,
    pub value: Option<String>,
}

impl StringConstantVisitor {
    pub open spec fn value_spec(&self) -> Option<Seq<char>> {
        match self.value {
            Some(v) => Some(v@),
            None => None,
        }
    }

    /// A visitor for the constant `NiFpga_<prefix>_<suffix>`, with no
    /// value found yet.
    pub fn new(prefix: &str, suffix: &str) -> (r: Self)
        ensures
            r.name@ == constant_identifier(prefix@, suffix@),
            r.value is None,
    {
        let mut name = chars_of("NiFpga_");
        let p = chars_of(prefix);
        let s = chars_of(suffix);
        name.append(&mut p.clone());
        name.push('_');
        name.append(&mut s.clone());
        proof {
            reveal_strlit("_");
            assert(name@ =~= constant_identifier(prefix@, suffix@));
        }
        StringConstantVisitor { name, value: None }
    }

    /// Looks at one declarator; after the first match nothing changes.
    pub fn visit_init_declarator(&mut self, d: &InitDeclarator)
        ensures
            final(self).name == old(self).name,
            final(self).value_spec() == visit_declarator(old(self).name@, *d, old(self).value_spec()),
    {
        if self.value.is_some() {
            return;
        }
        match (&d.identifier, &d.initializer) {
            (Some(id), Some(init)) => {
                let id_chars = chars_of(id.as_str());
                if chars_eq(id_chars.as_slice(), self.name.as_slice()) {
                    self.value = string_constant_from_initializer(init);
                }
            },
            _ => {},
        }
    }

    /// Looks at every declarator of every declaration, in order.
    pub fn visit_declarations(&mut self, ds: &Vec<Declaration>)
        ensures
            final(self).name == old(self).name,
            final(self).value_spec() == visit_declarations(old(self).name@, ds@, old(self).value_spec()),
    {
        let mut i: usize = 0;
        assert(ds@.subrange(0, ds@.len() as int) =~= ds@);
        while i < ds.len()
            invariant
                i <= ds@.len(),
                self.name == old(self).name,
                visit_declarations(self.name@, ds@, old(self).value_spec())
                    == visit_declarations(self.name@, ds@.subrange(i as int, ds@.len() as int), self.value_spec()),
            decreases ds@.len() - i,
        {
            proof {
                assert(ds@.subrange(i as int, ds@.len() as int).drop_first() =~= ds@.subrange(i + 1, ds@.len() as int));
            }
            let decls = &ds[i].declarators;
            let mut j: usize = 0;
            assert(decls@.subrange(0, decls@.len() as int) =~= decls@);
            let ghost start = self.value_spec();
            while j < decls.len()
                invariant
                    j <= decls@.len(),
                    self.name == old(self).name,
                    visit_declarators(self.name@, decls@, start)
                        == visit_declarators(self.name@, decls@.subrange(j as int, decls@.len() as int), self.value_spec()),
                decreases decls@.len() - j,
            {
                proof {
                    assert(decls@.subrange(j as int, decls@.len() as int).drop_first() =~= decls@.subrange(j + 1, decls@.len() as int));
                }
                self.visit_init_declarator(&decls[j]);
                j = j + 1;
            }
            proof {
                assert(decls@.subrange(j as int, decls@.len() as int) =~= Seq::<InitDeclarator>::empty());
            }
            i = i + 1;
        }
        proof {
            assert(ds@.subrange(i as int, ds@.len() as int) =~= Seq::<Declaration>::empty());
        }
    }
}

/// The string constant `NiFpga_<prefix>_<suffix>` of a header, if any.
pub fn find_string_constant(prefix: &str, suffix: &str, ds: &Vec<Declaration>) -> (r: Option<String>)
    ensures
        match r {
            None => string_constant_value(prefix@, suffix@, ds@) is None,
            Some(v) => string_constant_value(prefix@, suffix@, ds@) == Some(v@),
        },
{
    let mut visitor = StringConstantVisitor::new(prefix, suffix);
    visitor.visit_declarations(ds);
    visitor.value
}

} // verus!
