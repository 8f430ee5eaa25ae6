//! The diagnostics panel: how many problems of each kind there are, and
//! how each is shown.

use crate::blame::{decimal, decimal_text};
use crate::lsp_ui::Diagnostic;
use crate::text::append;
use vstd::prelude::*;

verus! {

/// The number of errors, warnings and other diagnostics.
pub open spec fn severity_counts(ds: Seq<Diagnostic>) -> (nat, nat, nat)
    decreases ds.len(),
{
    if ds.len() == 0 {
        (0, 0, 0)
    } else {
        let (e, w, i) = severity_counts(ds.drop_last());
        let s = ds.last().severity;
        (
            e + if s == 1 { 1nat } else { 0nat },
            w + if s == 2 { 1nat } else { 0nat },
            i + if s >= 3 { 1nat } else { 0nat },
        )
    }
}

/// The numbers of errors (severity 1), warnings (severity 2) and other
/// diagnostics (severity 3 or more); a diagnostic of severity 0 counts in
/// none.
pub fn diagnostics_summary(diagnostics: &[Diagnostic]) -> (r: (usize, usize, usize))
    ensures
        (r.0 as nat, r.1 as nat, r.2 as nat) == severity_counts(diagnostics@),
{
    let mut errors: usize = 0;
    let mut warnings: usize = 0;
    let mut info: usize = 0;
    let mut i: usize = 0;
    while i < diagnostics.len()
        invariant
            i <= diagnostics@.len(),
            errors <= i && warnings <= i && info <= i,
            (errors as nat, warnings as nat, info as nat) == severity_counts(diagnostics@.take(i as int)),
        decreases diagnostics@.len() - i,
    {
        let s = diagnostics[i].severity;
        if s == 1 {
            errors += 1;
        }
        if s == 2 {
            warnings += 1;
        }
        if s >= 3 {
            info += 1;
        }
        i += 1;
        assert(diagnostics@.take(i as int).drop_last() =~= diagnostics@.take(i - 1));
    }
    assert(diagnostics@.take(diagnostics@.len() as int) =~= diagnostics@);
    (errors, warnings, info)
}

/// Every diagnostic of severity 1 or more counts once: the three counts
/// add up to the number of such diagnostics.
pub proof fn lemma_summary_total(ds: Seq<Diagnostic>)
    requires
        forall|k: int| 0 <= k < ds.len() ==> #[trigger] ds[k].severity >= 1,
    ensures
        severity_counts(ds).0 + severity_counts(ds).1 + severity_counts(ds).2 == ds.len(),
    decreases ds.len(),
{
    if ds.len() > 0 {
        assert forall|k: int| 0 <= k < ds.drop_last().len() implies #[trigger] ds.drop_last()[k].severity >= 1 by {
            assert(ds.drop_last()[k] == ds[k]);
        }
        lemma_summary_total(ds.drop_last());
        assert(ds.last().severity >= 1);
    }
}

/// The style name and the letter of a severity: 1 error, 2 warning, 3
/// info, anything else hint.
pub open spec fn severity_look(severity: u32) -> (Seq<char>, Seq<char>) {
    if severity == 1 {
        ("error"@, "E"@)
    } else if severity == 2 {
        ("warning"@, "W"@)
    } else if severity == 3 {
        ("info"@, "I"@)
    } else {
        ("hint"@, "H"@)
    }
}

/// The style name and the letter shown for a severity.
pub fn severity_style(severity: u32) -> (r: (&'static str, &'static str))
    ensures
        (r.0@, r.1@) == severity_look(severity),
{
    if severity == 1 {
        ("error", "E")
    } else if severity == 2 {
        ("warning", "W")
    } else if severity == 3 {
        ("info", "I")
    } else {
        ("hint", "H")
    }
}

/// The style class of a diagnostic.
pub fn diagnostic_class(severity: u32) -> (r: String)
    ensures
        r@ == "berry-diagnostic berry-diagnostic-"@ + severity_look(severity).0,
{
    let (name, _) = severity_style(severity);
    append("berry-diagnostic berry-diagnostic-".to_string(), name)
}

/// Where a diagnostic starts, counted from 1: `[line:character]`.
pub fn location_text(d: &Diagnostic) -> (r: String)
    requires
        d.range.start.line < u32::MAX,
        d.range.start.character < u32::MAX,
    ensures
        r@ == "["@ + decimal_text((d.range.start.line + 1) as nat) + ":"@
            + decimal_text((d.range.start.character + 1) as nat) + "]"@,
{
    let l = decimal((d.range.start.line + 1) as u64);
    let c = decimal((d.range.start.character + 1) as u64);
    append(append(append(append("[".to_string(), l.as_str()), ":"), c.as_str()), "]")
}

} // verus!
