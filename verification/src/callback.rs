//! The host-compiler callbacks: remember which source file the host is
//! compiling, skip the runtime crates the analysis deliberately leaves
//! alone, and hand the lowered program to the numerical analysis.

use vstd::prelude::*;
use crate::analyzer::{
    spec_find_body, spec_run_report, AnalysisError, AnalysisInfo, GlobalContext,
    NumericalAnalysis, Program, StaticAnalysis,
};
use crate::config::AbstractDomainType;
use crate::diagnostics::Diagnostic;
use crate::config::AnalysisOption;
use vstd::string::StringSliceAdditionalSpecFns;

verus! {

pub struct MirCheckerCallbacks {
    pub analysis_options: AnalysisOption,
    pub source_name: String,
}

impl MirCheckerCallbacks {
    /// Wrap the configuration; the source name is filled in when the
    /// host reports it.
    pub fn new(options: AnalysisOption) -> (r: Self)
        ensures
            r.analysis_options == options,
            r.source_name@ == Seq::<char>::empty(),
    {
        MirCheckerCallbacks { analysis_options: options, source_name: String::new() }
    }

    /// Called before the compiler instance runs: record the name of
    /// the source file the host is about to compile.
    pub fn config(&mut self, source_name: String)
        ensures
            final(self).source_name == source_name,
            final(self).analysis_options == old(self).analysis_options,
    {
        self.source_name = source_name;
    }

    /// Run the analysis on the lowered program, unless the recorded
    /// source file belongs to one of the runtime crates the analysis
    /// skips.  On a source that is not skipped: no answer means the
    /// configured entry function is absent from the program; an error
    /// means a domain without a native backing was selected; and a
    /// completed run reports exactly the entry function's findings.
    pub fn run_analysis(self, program: Program) -> (r: Option<
        Result<AnalysisInfo, AnalysisError>,
    >)
        ensures
            spec_should_skip(vstd::utf8::encode_utf8(self.source_name@)) ==> r is None,
            !spec_should_skip(vstd::utf8::encode_utf8(self.source_name@)) ==> match r {
                None => spec_find_body(
                    program.functions@,
                    self.analysis_options.entry_def_id,
                ) is None,
                Some(res) => {
                    &&& (res is Ok <==> self.analysis_options.domain_type
                        == AbstractDomainType::Interval)
                    &&& (res matches Err(e) ==> e == AnalysisError::UnsupportedDomain)
                    &&& (res matches Ok(info) ==> spec_run_report(
                        program,
                        self.analysis_options,
                        Seq::<(u64, Vec<Diagnostic>)>::empty(),
                        info,
                    ))
                },
            },
    {
        if should_skip_source(self.source_name.as_str()) {
            return None;
        }
        match GlobalContext::new(program, self.analysis_options) {
            Option::Some(context) => {
                proof {
                    assert(context.diagnostics_for.map@ =~= Seq::<(u64, Vec<Diagnostic>)>::empty());
                }
                let analysis = NumericalAnalysis::new(context);
                Some(analysis.run())
            },
            Option::None => None,
        }
    }
}

/// Whether the needle occurs as a contiguous run inside the haystack.
pub open spec fn spec_contains_bytes(hay: Seq<u8>, needle: Seq<u8>) -> bool {
    exists|i: int|
        0 <= i && i + needle.len() <= hay.len() && #[trigger] hay.subrange(i, i + needle.len())
            == needle
}

/// Search for the needle inside the haystack.
pub fn contains_bytes(hay: &[u8], needle: &[u8]) -> (r: bool)
    ensures
        r == spec_contains_bytes(hay@, needle@),
{
    let hn = hay.len();
    let nn = needle.len();
    if nn > hn {
        proof {
            assert(!spec_contains_bytes(hay@, needle@));
        }
        return false;
    }
    let mut i: usize = 0;
    while i <= hn - nn
        invariant
            0 <= i <= hn - nn + 1,
            nn <= hn,
            hn == hay@.len(),
            nn == needle@.len(),
            forall|k: int| 0 <= k < i ==> #[trigger] hay@.subrange(k, k + needle@.len())
                != needle@,
        decreases hn - nn + 1 - i,
    {
        let mut j: usize = 0;
        let mut matched = true;
        while j < nn
            invariant
                0 <= j <= nn,
                i + nn <= hn,
                hn == hay@.len(),
                nn == needle@.len(),
                matched == (forall|k: int| 0 <= k < j ==> hay@[i + k] == needle@[k]),
            decreases nn - j,
        {
            if hay[i + j] != needle[j] {
                assert(hay@[i as int + j as int] != needle@[j as int]);
                matched = false;
                proof {
                    assert(!(forall|k: int| 0 <= k < j + 1 ==> hay@[i + k] == needle@[k]));
                }
                j = nn;
            } else {
                proof {
                    if matched {
                        assert forall|k: int| 0 <= k < j + 1 implies hay@[i + k] == needle@[k] by {
                        }
                    }
                }
                j = j + 1;
            }
        }
        if matched {
            proof {
                assert(hay@.subrange(i as int, i as int + needle@.len()) =~= needle@);
            }
            return true;
        }
        proof {
            assert(hay@.subrange(i as int, i as int + needle@.len()) != needle@) by {
                let k = choose|k: int| 0 <= k < nn && hay@[i + k] != needle@[k];
                assert(hay@.subrange(i as int, i as int + needle@.len())[k] == hay@[i + k]);
            }
        }
        i = i + 1;
    }
    proof {
        assert forall|k: int| 0 <= k && k + needle@.len() <= hay@.len() implies #[trigger] hay
            @.subrange(k, k + needle@.len()) != needle@ by {
            assert(k < i);
        }
    }
    false
}

/// The path fragments of the runtime crates the analysis skips.
pub open spec fn spec_skip_needles() -> Seq<Seq<u8>> {
    seq![
        seq![47u8, 108u8, 105u8, 98u8, 99u8, 111u8, 114u8, 101u8],
        seq![
            47u8, 99u8, 111u8, 109u8, 112u8, 105u8, 108u8, 101u8, 114u8, 95u8, 98u8, 117u8,
            105u8, 108u8, 116u8, 105u8, 110u8, 115u8,
        ],
        seq![47u8, 108u8, 105u8, 98u8, 97u8, 108u8, 108u8, 111u8, 99u8],
        seq![47u8, 109u8, 97u8, 99u8, 114u8, 111u8],
        seq![47u8, 108u8, 105u8, 98u8, 99u8],
    ]
}

/// Whether a source path belongs to a runtime crate that is skipped:
/// it mentions the core library, the compiler builtins, the allocation
/// library, a macro expansion, or the C library shims.
pub open spec fn spec_should_skip(path: Seq<u8>) -> bool {
    exists|i: int|
        0 <= i < spec_skip_needles().len() && spec_contains_bytes(
            path,
            #[trigger] spec_skip_needles()[i],
        )
}

/// Decide whether the source file is skipped.
pub fn should_skip_source(name: &str) -> (r: bool)
    ensures
        r == spec_should_skip(vstd::utf8::encode_utf8(name@)),
{
    let bytes = name.as_bytes();
    let n0: [u8; 8] = [47, 108, 105, 98, 99, 111, 114, 101];
    let n1: [u8; 18] = [
        47, 99, 111, 109, 112, 105, 108, 101, 114, 95, 98, 117, 105, 108, 116, 105, 110, 115,
    ];
    let n2: [u8; 9] = [47, 108, 105, 98, 97, 108, 108, 111, 99];
    let n3: [u8; 6] = [47, 109, 97, 99, 114, 111];
    let n4: [u8; 5] = [47, 108, 105, 98, 99];
    proof {
        assert(n0@ =~= spec_skip_needles()[0]);
        assert(n1@ =~= spec_skip_needles()[1]);
        assert(n2@ =~= spec_skip_needles()[2]);
        assert(n3@ =~= spec_skip_needles()[3]);
        assert(n4@ =~= spec_skip_needles()[4]);
    }
    let r = contains_bytes(bytes, n0.as_slice()) || contains_bytes(bytes, n1.as_slice())
        || contains_bytes(bytes, n2.as_slice()) || contains_bytes(bytes, n3.as_slice())
        || contains_bytes(bytes, n4.as_slice());
    proof {
        if r {
            assert(spec_should_skip(name.spec_bytes()));
        } else {
            assert forall|i: int| 0 <= i < spec_skip_needles().len() implies !spec_contains_bytes(
                name.spec_bytes(),
                #[trigger] spec_skip_needles()[i],
            ) by {
                if i == 0 {
                } else if i == 1 {
                } else if i == 2 {
                } else if i == 3 {
                } else {
                    assert(i == 4);
                }
            }
        }
    }
    r
}

} // verus!
