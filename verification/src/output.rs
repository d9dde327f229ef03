//! The output emitter.
//!
//! An `Output` is an append-only text buffer together with the display name
//! of the source file and the current source line number.  Raw text is
//! appended verbatim; the richer operations write blocks of
//! C-preprocessor-style macro text that scope file-local symbols: a labeled
//! scope rebinds the `scope` macro to the current line number, so each
//! labeled block gets a numerically unique binding derived from its source
//! position.
//!
//! The exact text of every emitted form is fixed by the spec functions
//! below; each writing operation promises to append exactly that text.

use vstd::prelude::*;
use crate::numeral::decimal_of;
use crate::numeral::decimal_string;
use crate::numeral::lemma_decimal_injective;

verus! {

/// The emitted form of a reference to a file-local symbol.
pub open spec fn local_symbol_text(name: Seq<char>) -> Seq<char> {
    "L("@ + name + ")"@
}

/// The emitted form of a definition of a file-local label: the reference
/// form with a trailing definition marker.
pub open spec fn local_label_text(name: Seq<char>) -> Seq<char> {
    local_symbol_text(name) + ":"@
}

/// The macro text that rebinds `scope` to the numeral of `line`.  A stale
/// binding, if one exists, is always removed first, so successive scope
/// entries never interfere.
pub open spec fn scope_binding_text(line: nat) -> Seq<char> {
    "#ifdef scope\n#undef scope\n#endif\n#define scope "@ + decimal_of(line)
}

/// A line-marker directive attributing the text that follows to `line` of
/// `file`, for downstream diagnostics.
pub open spec fn line_marker_text(line: nat, file: Seq<char>) -> Seq<char> {
    "# "@ + decimal_of(line) + " \""@ + file + "\"\n"@
}

/// The block emitted on entering a labeled scope: a comment naming the
/// scope, the guarded rebinding of `scope`, a line marker, and the label
/// directive that applies the new binding.
pub open spec fn label_text(name: Seq<char>, line: nat, file: Seq<char>) -> Seq<char> {
    "; SCOPE: "@ + name + "\n"@ + scope_binding_text(line) + "\n"@ + line_marker_text(line, file)
        + ".label scope;"@
}

/// The block emitted on declaring the current scope global: a line marker
/// and the global directive, leaving the scope binding itself untouched.
pub open spec fn global_text(line: nat, file: Seq<char>) -> Seq<char> {
    line_marker_text(line, file) + ".global scope;"@
}

/// Relies on String::with_capacity: a freshly created string holds no
/// characters.
#[verifier::external_body]
fn string_with_capacity(cap: usize) -> (s: String)
    ensures
        s@ == Seq::<char>::empty(),
{
    String::with_capacity(cap)
}

/// Relies on String::push: appends the one character `c` at the end of the
/// string.
#[verifier::external_body]
pub(crate) fn push_char(s: &mut String, c: char)
    ensures
        final(s)@ == old(s)@.push(c),
{
    s.push(c)
}

/// The accumulated preprocessed text, the source display name, and the
/// current source line number.
pub struct Output {
    text: String,
    name: String,
    line: usize,
}

impl Output {
    /// The text accumulated so far.
    pub closed spec fn text_view(&self) -> Seq<char> {
        self.text@
    }

    /// The display name of the source file, fixed at construction.
    pub closed spec fn file_name(&self) -> Seq<char> {
        self.name@
    }

    /// The current source line number.
    pub closed spec fn line_number(&self) -> nat {
        self.line as nat
    }

    /// A fresh emitter for the source named `name`: empty text, line one.
    pub fn with_capacity(name: String, cap: usize) -> (out: Output)
        ensures
            out.text_view() == Seq::<char>::empty(),
            out.file_name() == name@,
            out.line_number() == 1,
    {
        Output { text: string_with_capacity(cap), name, line: 1 }
    }

    /// The accumulated text.
    pub fn as_str(&self) -> (r: &str)
        ensures
            r@ == self.text_view(),
    {
        self.text.as_str()
    }

    /// Steps the line counter past one physical input line.
    pub fn advance_line(&mut self)
        requires
            old(self).line_number() < usize::MAX,
        ensures
            final(self).line_number() == old(self).line_number() + 1,
            final(self).text_view() == old(self).text_view(),
            final(self).file_name() == old(self).file_name(),
    {
        self.line = self.line + 1;
    }

    /// Appends one character verbatim.
    pub fn write_raw_char(&mut self, c: char)
        ensures
            final(self).text_view() == old(self).text_view().push(c),
            final(self).file_name() == old(self).file_name(),
            final(self).line_number() == old(self).line_number(),
    {
        push_char(&mut self.text, c)
    }

    /// Appends a string verbatim.
    pub fn write_raw_str(&mut self, s: &str)
        ensures
            final(self).text_view() == old(self).text_view() + s@,
            final(self).file_name() == old(self).file_name(),
            final(self).line_number() == old(self).line_number(),
    {
        self.text.append(s)
    }

    /// Appends the scoped reference form for the local symbol `name`.
    pub fn write_local_symbol(&mut self, name: &str)
        ensures
            final(self).text_view() == old(self).text_view() + local_symbol_text(name@),
            final(self).file_name() == old(self).file_name(),
            final(self).line_number() == old(self).line_number(),
    {
        self.text.append("L(");
        self.text.append(name);
        self.text.append(")");
        proof {
            assert(self.text@ =~= old(self).text_view() + local_symbol_text(name@));
        }
    }

    /// Appends the scoped definition form for the local label `name`.
    pub fn write_local_label(&mut self, name: &str)
        ensures
            final(self).text_view() == old(self).text_view() + local_label_text(name@),
            final(self).file_name() == old(self).file_name(),
            final(self).line_number() == old(self).line_number(),
    {
        self.text.append("L(");
        self.text.append(name);
        self.text.append(")");
        self.text.append(":");
        proof {
            assert(self.text@ =~= old(self).text_view() + local_label_text(name@));
        }
    }

    /// Appends the scope-entry block for a labeled scope called `name`,
    /// binding `scope` to the current line number.
    pub fn label(&mut self, name: &str)
        ensures
            final(self).text_view() == old(self).text_view() + label_text(
                name@,
                old(self).line_number(),
                old(self).file_name(),
            ),
            final(self).file_name() == old(self).file_name(),
            final(self).line_number() == old(self).line_number(),
    {
        let num = decimal_string(self.line);
        self.text.append("; SCOPE: ");
        self.text.append(name);
        self.text.append("\n");
        self.text.append("#ifdef scope\n#undef scope\n#endif\n#define scope ");
        self.text.append(num.as_str());
        self.text.append("\n");
        self.text.append("# ");
        self.text.append(num.as_str());
        self.text.append(" \"");
        self.text.append(self.name.as_str());
        self.text.append("\"\n");
        self.text.append(".label scope;");
        proof {
            assert(self.text@ =~= old(self).text_view() + label_text(
                name@,
                old(self).line_number(),
                old(self).file_name(),
            ));
        }
    }

    /// Appends the global-declaration block for the current scope.
    pub fn global(&mut self)
        ensures
            final(self).text_view() == old(self).text_view() + global_text(
                old(self).line_number(),
                old(self).file_name(),
            ),
            final(self).file_name() == old(self).file_name(),
            final(self).line_number() == old(self).line_number(),
    {
        let num = decimal_string(self.line);
        self.text.append("# ");
        self.text.append(num.as_str());
        self.text.append(" \"");
        self.text.append(self.name.as_str());
        self.text.append("\"\n");
        self.text.append(".global scope;");
        proof {
            assert(self.text@ =~= old(self).text_view() + global_text(
                old(self).line_number(),
                old(self).file_name(),
            ));
        }
    }
}

/// Law: the label-definition form and the reference form wrap a given name
/// identically; the definition form is the reference form followed by the
/// definition marker.
pub proof fn lemma_local_forms_consistent(name: Seq<char>)
    ensures
        local_label_text(name) == local_symbol_text(name) + ":"@,
        local_label_text(name).take(local_symbol_text(name).len() as int) == local_symbol_text(
            name,
        ),
{
    assert(local_label_text(name).take(local_symbol_text(name).len() as int) =~= local_symbol_text(
        name,
    ));
}

/// Law: scope entries made at distinct source lines bind `scope` to
/// distinct numerals, so no labeled scope ever reuses another's binding.
pub proof fn lemma_scope_isolation(l1: nat, l2: nat)
    requires
        l1 != l2,
    ensures
        scope_binding_text(l1) != scope_binding_text(l2),
        decimal_of(l1) != decimal_of(l2),
{
    let p = "#ifdef scope\n#undef scope\n#endif\n#define scope "@;
    let d1 = decimal_of(l1);
    let d2 = decimal_of(l2);
    if d1 == d2 {
        lemma_decimal_injective(l1, l2);
    }
    if scope_binding_text(l1) == scope_binding_text(l2) {
        assert((p + d1).len() == p.len() + d1.len());
        assert((p + d2).len() == p.len() + d2.len());
        assert(d1.len() == d2.len());
        assert forall|i: int| 0 <= i < d1.len() implies d1[i] == d2[i] by {
            assert((p + d1)[p.len() + i] == d1[i]);
            assert((p + d2)[p.len() + i] == d2[i]);
        }
        assert(d1 =~= d2);
    }
}

} // verus!
