//! The generated bindings file: one embedded-artifact constant per unit,
//! rewritten only when the set of artifacts changed.

use vstd::prelude::*;
use crate::text::{dots_to_underscores, replace_dots};

verus! {

/// One compiled unit: its source path and the stem that names its artifact.
#[derive(Debug, Clone)]
pub struct KernelUnit {
    pub source: String,
    pub stem: String,
}

/// The text as `str::to_uppercase` maps it.
pub uninterp spec fn upper_of(s: Seq<char>) -> Seq<char>;

/// Relies on str::to_uppercase: the Unicode upper case of the text.
#[verifier::external_body]
fn to_upper(s: &str) -> (r: String)
    ensures
        r@ == upper_of(s@),
{
    s.to_uppercase()
}

/// The identifier of a unit's constant: its stem upper-cased, dots made underscores.
pub open spec fn binding_identifier(stem: Seq<char>) -> Seq<char> {
    dots_to_underscores(upper_of(stem))
}

/// The line that binds one unit's artifact, newline included.
pub open spec fn binding_line(stem: Seq<char>) -> Seq<char> {
    "pub const "@ + binding_identifier(stem) + ": &str = include_str!(concat!(env!(\"OUT_DIR\"), \"/"@
        + stem + ".ptx\"));\n"@
}

/// The whole bindings file for units of these stems, in their order.
pub open spec fn bindings_text(stems: Seq<Seq<char>>) -> Seq<char>
    decreases stems.len(),
{
    if stems.len() == 0 {
        Seq::empty()
    } else {
        bindings_text(stems.drop_last()) + binding_line(stems.last())
    }
}

pub open spec fn unit_stems(units: Seq<KernelUnit>) -> Seq<Seq<char>> {
    units.map_values(|u: KernelUnit| u.stem@)
}

/// Whether the bindings must be written again: some unit was compiled, or
/// fewer units are configured than artifacts lie in the output directory.
pub open spec fn changed_signal(n_compiled: nat, n_configured: nat, n_artifacts: nat) -> bool {
    n_compiled > 0 || n_configured < n_artifacts
}

/// The units to bind, and whether the file is to be written.
pub struct Bindings {
    pub write: bool,
    pub units: Vec<KernelUnit>,
}

/// The destination's text after the bindings are written over `dest`.
pub open spec fn written(write: bool, units: Seq<KernelUnit>, dest: Seq<char>) -> Seq<char> {
    if write {
        bindings_text(unit_stems(units))
    } else {
        dest
    }
}

/// Decides whether the bindings must be written again.
pub fn changed(n_compiled: usize, n_configured: usize, n_artifacts: usize) -> (r: bool)
    ensures
        r == changed_signal(n_compiled as nat, n_configured as nat, n_artifacts as nat),
{
    n_compiled > 0 || n_configured < n_artifacts
}

/// The identifier of the constant for a unit of this stem
/// (`flash.attention` gives `FLASH_ATTENTION`).
pub fn identifier(stem: &str) -> (r: String)
    ensures
        r@ == binding_identifier(stem@),
{
    let upper = to_upper(stem);
    replace_dots(upper.as_str())
}

/// Appends the binding line of a unit of this stem to `out`.
pub fn push_binding_line(out: &mut String, stem: &str)
    ensures
        final(out)@ == old(out)@ + binding_line(stem@),
{
    let name = identifier(stem);
    out.append("pub const ");
    out.append(name.as_str());
    out.append(": &str = include_str!(concat!(env!(\"OUT_DIR\"), \"/");
    out.append(stem);
    out.append(".ptx\"));\n");
    assert(final(out)@ =~= old(out)@ + binding_line(stem@));
}

impl Bindings {
    /// The bindings text: one line per unit, in unit order.
    pub fn render(&self) -> (r: String)
        ensures
            r@ == bindings_text(unit_stems(self.units@)),
    {
        let mut out = String::new();
        let ghost stems = unit_stems(self.units@);
        let mut i: usize = 0;
        while i < self.units.len()
            invariant
                i <= self.units@.len(),
                stems == unit_stems(self.units@),
                out@ == bindings_text(stems.subrange(0, i as int)),
            decreases self.units@.len() - i,
        {
            push_binding_line(&mut out, self.units[i].stem.as_str());
            proof {
                let p = stems.subrange(0, i + 1);
                assert(p.drop_last() == stems.subrange(0, i as int));
                assert(p.last() == self.units@[i as int].stem@);
            }
            i = i + 1;
        }
        assert(stems.subrange(0, self.units@.len() as int) == stems);
        out
    }

    /// Writes the bindings over `dest` when they changed; otherwise leaves
    /// `dest` as it is.
    pub fn write(&self, dest: &mut String)
        ensures
            final(dest)@ == written(self.write, self.units@, old(dest)@),
    {
        if self.write {
            *dest = self.render();
        }
    }
}

/// Writing unchanged bindings leaves the destination as it was, and writing
/// the same bindings a second time gives the same text as the first.
pub proof fn lemma_write_idempotent(write: bool, units: Seq<KernelUnit>, dest: Seq<char>)
    ensures
        !write ==> written(write, units, dest) == dest,
        written(write, units, written(write, units, dest)) == written(write, units, dest),
{
}

/// With no unit compiled, the bindings are still rewritten when a unit was
/// removed while its artifact remains.
pub proof fn lemma_removed_unit_rewrites(n_configured: nat, n_artifacts: nat)
    requires
        n_configured < n_artifacts,
    ensures
        changed_signal(0, n_configured, n_artifacts),
{
}

} // verus!
