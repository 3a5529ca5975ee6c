//! The fixed set of built-in keyword and operator strings that is
//! interned before any run-specific string: the directive words of
//! control files, the command words of the two input languages, every
//! built-in callable operation, and the recognized control sequences.
//! `predefined_model` pins the exact bytes, payloads and order, so
//! callers may rely on these being present and stable, from the
//! lowest identifiers on.

use vstd::prelude::*;

verus! {

use crate::kinds::{AuxCommand, BibCommand, BstBuiltin, BstCommand, BstFn, ControlSeq, HashExtra};
use crate::table::{has_bytes, model_extends, InternError, SymbolTable};

/// How many built-in strings are predefined.
pub const NUM_PREDEFINED: usize = 67;

/// The directive words of inclusion-stack control files.
pub open spec fn aux_model() -> Seq<(Seq<u8>, HashExtra)> {
    seq![
        (seq![92u8, 98u8, 105u8, 98u8, 100u8, 97u8, 116u8, 97u8], HashExtra::AuxCommand(AuxCommand::Data)),
        (seq![92u8, 98u8, 105u8, 98u8, 115u8, 116u8, 121u8, 108u8, 101u8], HashExtra::AuxCommand(AuxCommand::Style)),
        (seq![92u8, 99u8, 105u8, 116u8, 97u8, 116u8, 105u8, 111u8, 110u8], HashExtra::AuxCommand(AuxCommand::Citation)),
        (seq![92u8, 64u8, 105u8, 110u8, 112u8, 117u8, 116u8], HashExtra::AuxCommand(AuxCommand::Input)),
    ]
}

/// The command words of the style-instruction language.
pub open spec fn bst_command_model() -> Seq<(Seq<u8>, HashExtra)> {
    seq![
        (seq![101u8, 110u8, 116u8, 114u8, 121u8], HashExtra::BstCommand(BstCommand::Entry)),
        (seq![101u8, 120u8, 101u8, 99u8, 117u8, 116u8, 101u8], HashExtra::BstCommand(BstCommand::Execute)),
        (seq![102u8, 117u8, 110u8, 99u8, 116u8, 105u8, 111u8, 110u8], HashExtra::BstCommand(BstCommand::Function)),
        (seq![105u8, 110u8, 116u8, 101u8, 103u8, 101u8, 114u8, 115u8], HashExtra::BstCommand(BstCommand::Integers)),
        (seq![105u8, 116u8, 101u8, 114u8, 97u8, 116u8, 101u8], HashExtra::BstCommand(BstCommand::Iterate)),
        (seq![109u8, 97u8, 99u8, 114u8, 111u8], HashExtra::BstCommand(BstCommand::Macro)),
        (seq![114u8, 101u8, 97u8, 100u8], HashExtra::BstCommand(BstCommand::Read)),
        (seq![114u8, 101u8, 118u8, 101u8, 114u8, 115u8, 101u8], HashExtra::BstCommand(BstCommand::Reverse)),
        (seq![115u8, 111u8, 114u8, 116u8], HashExtra::BstCommand(BstCommand::Sort)),
        (seq![115u8, 116u8, 114u8, 105u8, 110u8, 103u8, 115u8], HashExtra::BstCommand(BstCommand::Strings)),
    ]
}

/// The command words of the bibliography database language.
pub open spec fn bib_command_model() -> Seq<(Seq<u8>, HashExtra)> {
    seq![
        (seq![99u8, 111u8, 109u8, 109u8, 101u8, 110u8, 116u8], HashExtra::BibCommand(BibCommand::Comment)),
        (seq![112u8, 114u8, 101u8, 97u8, 109u8, 98u8, 108u8, 101u8], HashExtra::BibCommand(BibCommand::Preamble)),
        (seq![115u8, 116u8, 114u8, 105u8, 110u8, 103u8], HashExtra::BibCommand(BibCommand::String)),
    ]
}

/// Built-in callable operations, first group.
pub open spec fn builtin_model_a() -> Seq<(Seq<u8>, HashExtra)> {
    seq![
        (seq![61u8], HashExtra::BstFn(BstFn::Builtin(BstBuiltin::Eq))),
        (seq![62u8], HashExtra::BstFn(BstFn::Builtin(BstBuiltin::Gt))),
        (seq![60u8], HashExtra::BstFn(BstFn::Builtin(BstBuiltin::Lt))),
        (seq![43u8], HashExtra::BstFn(BstFn::Builtin(BstBuiltin::Plus))),
        (seq![45u8], HashExtra::BstFn(BstFn::Builtin(BstBuiltin::Minus))),
        (seq![42u8], HashExtra::BstFn(BstFn::Builtin(BstBuiltin::Concat))),
        (seq![58u8, 61u8], HashExtra::BstFn(BstFn::Builtin(BstBuiltin::Assign))),
        (seq![97u8, 100u8, 100u8, 46u8, 112u8, 101u8, 114u8, 105u8, 111u8, 100u8, 36u8], HashExtra::BstFn(BstFn::Builtin(BstBuiltin::AddPeriod))),
        (seq![99u8, 97u8, 108u8, 108u8, 46u8, 116u8, 121u8, 112u8, 101u8, 36u8], HashExtra::BstFn(BstFn::Builtin(BstBuiltin::CallType))),
        (seq![99u8, 104u8, 97u8, 110u8, 103u8, 101u8, 46u8, 99u8, 97u8, 115u8, 101u8, 36u8], HashExtra::BstFn(BstFn::Builtin(BstBuiltin::ChangeCase))),
    ]
}

/// Built-in callable operations, second group.
pub open spec fn builtin_model_b() -> Seq<(Seq<u8>, HashExtra)> {
    seq![
        (seq![99u8, 104u8, 114u8, 46u8, 116u8, 111u8, 46u8, 105u8, 110u8, 116u8, 36u8], HashExtra::BstFn(BstFn::Builtin(BstBuiltin::ChrToInt))),
        (seq![99u8, 105u8, 116u8, 101u8, 36u8], HashExtra::BstFn(BstFn::Builtin(BstBuiltin::Cite))),
        (seq![100u8, 117u8, 112u8, 108u8, 105u8, 99u8, 97u8, 116u8, 101u8, 36u8], HashExtra::BstFn(BstFn::Builtin(BstBuiltin::Duplicate))),
        (seq![101u8, 109u8, 112u8, 116u8, 121u8, 36u8], HashExtra::BstFn(BstFn::Builtin(BstBuiltin::Empty))),
        (seq![102u8, 111u8, 114u8, 109u8, 97u8, 116u8, 46u8, 110u8, 97u8, 109u8, 101u8, 36u8], HashExtra::BstFn(BstFn::Builtin(BstBuiltin::FormatName))),
        (seq![105u8, 102u8, 36u8], HashExtra::BstFn(BstFn::Builtin(BstBuiltin::If))),
        (seq![105u8, 110u8, 116u8, 46u8, 116u8, 111u8, 46u8, 99u8, 104u8, 114u8, 36u8], HashExtra::BstFn(BstFn::Builtin(BstBuiltin::IntToChr))),
        (seq![105u8, 110u8, 116u8, 46u8, 116u8, 111u8, 46u8, 115u8, 116u8, 114u8, 36u8], HashExtra::BstFn(BstFn::Builtin(BstBuiltin::IntToStr))),
        (seq![109u8, 105u8, 115u8, 115u8, 105u8, 110u8, 103u8, 36u8], HashExtra::BstFn(BstFn::Builtin(BstBuiltin::Missing))),
        (seq![110u8, 101u8, 119u8, 108u8, 105u8, 110u8, 101u8, 36u8], HashExtra::BstFn(BstFn::Builtin(BstBuiltin::Newline))),
    ]
}

/// Built-in callable operations, third group.
pub open spec fn builtin_model_c() -> Seq<(Seq<u8>, HashExtra)> {
    seq![
        (seq![110u8, 117u8, 109u8, 46u8, 110u8, 97u8, 109u8, 101u8, 115u8, 36u8], HashExtra::BstFn(BstFn::Builtin(BstBuiltin::NumNames))),
        (seq![112u8, 111u8, 112u8, 36u8], HashExtra::BstFn(BstFn::Builtin(BstBuiltin::Pop))),
        (seq![112u8, 114u8, 101u8, 97u8, 109u8, 98u8, 108u8, 101u8, 36u8], HashExtra::BstFn(BstFn::Builtin(BstBuiltin::Preamble))),
        (seq![112u8, 117u8, 114u8, 105u8, 102u8, 121u8, 36u8], HashExtra::BstFn(BstFn::Builtin(BstBuiltin::Purify))),
        (seq![113u8, 117u8, 111u8, 116u8, 101u8, 36u8], HashExtra::BstFn(BstFn::Builtin(BstBuiltin::Quote))),
        (seq![115u8, 107u8, 105u8, 112u8, 36u8], HashExtra::BstFn(BstFn::Builtin(BstBuiltin::Skip))),
        (seq![115u8, 116u8, 97u8, 99u8, 107u8, 36u8], HashExtra::BstFn(BstFn::Builtin(BstBuiltin::Stack))),
        (seq![115u8, 117u8, 98u8, 115u8, 116u8, 114u8, 105u8, 110u8, 103u8, 36u8], HashExtra::BstFn(BstFn::Builtin(BstBuiltin::Substring))),
        (seq![115u8, 119u8, 97u8, 112u8, 36u8], HashExtra::BstFn(BstFn::Builtin(BstBuiltin::Swap))),
        (seq![116u8, 101u8, 120u8, 116u8, 46u8, 108u8, 101u8, 110u8, 103u8, 116u8, 104u8, 36u8], HashExtra::BstFn(BstFn::Builtin(BstBuiltin::TextLength))),
    ]
}

/// Built-in callable operations, fourth group.
pub open spec fn builtin_model_d() -> Seq<(Seq<u8>, HashExtra)> {
    seq![
        (seq![116u8, 101u8, 120u8, 116u8, 46u8, 112u8, 114u8, 101u8, 102u8, 105u8, 120u8, 36u8], HashExtra::BstFn(BstFn::Builtin(BstBuiltin::TextPrefix))),
        (seq![116u8, 111u8, 112u8, 36u8], HashExtra::BstFn(BstFn::Builtin(BstBuiltin::Top))),
        (seq![116u8, 121u8, 112u8, 101u8, 36u8], HashExtra::BstFn(BstFn::Builtin(BstBuiltin::Type))),
        (seq![119u8, 97u8, 114u8, 110u8, 105u8, 110u8, 103u8, 36u8], HashExtra::BstFn(BstFn::Builtin(BstBuiltin::Warning))),
        (seq![119u8, 104u8, 105u8, 108u8, 101u8, 36u8], HashExtra::BstFn(BstFn::Builtin(BstBuiltin::While))),
        (seq![119u8, 105u8, 100u8, 116u8, 104u8, 36u8], HashExtra::BstFn(BstFn::Builtin(BstBuiltin::Width))),
        (seq![119u8, 114u8, 105u8, 116u8, 101u8, 36u8], HashExtra::BstFn(BstFn::Builtin(BstBuiltin::Write))),
    ]
}

/// The recognized control sequences.
pub open spec fn control_seq_model() -> Seq<(Seq<u8>, HashExtra)> {
    seq![
        (seq![92u8, 105u8], HashExtra::ControlSeq(ControlSeq::LowerI)),
        (seq![92u8, 106u8], HashExtra::ControlSeq(ControlSeq::LowerJ)),
        (seq![92u8, 79u8, 69u8], HashExtra::ControlSeq(ControlSeq::UpperOe)),
        (seq![92u8, 111u8, 101u8], HashExtra::ControlSeq(ControlSeq::LowerOe)),
        (seq![92u8, 65u8, 69u8], HashExtra::ControlSeq(ControlSeq::UpperAe)),
        (seq![92u8, 97u8, 101u8], HashExtra::ControlSeq(ControlSeq::LowerAe)),
        (seq![92u8, 65u8, 65u8], HashExtra::ControlSeq(ControlSeq::UpperAa)),
        (seq![92u8, 97u8, 97u8], HashExtra::ControlSeq(ControlSeq::LowerAa)),
        (seq![92u8, 79u8], HashExtra::ControlSeq(ControlSeq::UpperO)),
        (seq![92u8, 111u8], HashExtra::ControlSeq(ControlSeq::LowerO)),
        (seq![92u8, 76u8], HashExtra::ControlSeq(ControlSeq::UpperL)),
        (seq![92u8, 108u8], HashExtra::ControlSeq(ControlSeq::LowerL)),
        (seq![92u8, 115u8, 115u8], HashExtra::ControlSeq(ControlSeq::LowerSs)),
    ]
}

/// Every predefined pair, in the fixed predefinition order.
pub open spec fn predefined_model() -> Seq<(Seq<u8>, HashExtra)> {
    aux_model() + bst_command_model() + bib_command_model() + builtin_model_a()
        + builtin_model_b() + builtin_model_c() + builtin_model_d() + control_seq_model()
}

/// Append this group of built-ins to the list.
fn push_aux(list: &mut Vec<(Vec<u8>, HashExtra)>)
    ensures
        final(list)@.len() == old(list)@.len() + 4,
        forall|k: int| 0 <= k < old(list)@.len() ==> #[trigger] final(list)@[k] == old(list)@[k],
        forall|k: int|
            old(list)@.len() <= k < final(list)@.len() ==> (#[trigger] final(list)@[k]).0@ == aux_model()[
                k - old(list)@.len()].0 && final(list)@[k].1 == aux_model()[k - old(list)@.len()].1,
{
    let ghost base = list@.len() as int;
    let mut s: Vec<u8> = Vec::new();
    s.push(92u8);
    s.push(98u8);
    s.push(105u8);
    s.push(98u8);
    s.push(100u8);
    s.push(97u8);
    s.push(116u8);
    s.push(97u8);
    proof {
        assert(s@ =~= aux_model()[0].0);
    }
    list.push((s, HashExtra::AuxCommand(AuxCommand::Data)));
    let mut s: Vec<u8> = Vec::new();
    s.push(92u8);
    s.push(98u8);
    s.push(105u8);
    s.push(98u8);
    s.push(115u8);
    s.push(116u8);
    s.push(121u8);
    s.push(108u8);
    s.push(101u8);
    proof {
        assert(s@ =~= aux_model()[1].0);
    }
    list.push((s, HashExtra::AuxCommand(AuxCommand::Style)));
    let mut s: Vec<u8> = Vec::new();
    s.push(92u8);
    s.push(99u8);
    s.push(105u8);
    s.push(116u8);
    s.push(97u8);
    s.push(116u8);
    s.push(105u8);
    s.push(111u8);
    s.push(110u8);
    proof {
        assert(s@ =~= aux_model()[2].0);
    }
    list.push((s, HashExtra::AuxCommand(AuxCommand::Citation)));
    let mut s: Vec<u8> = Vec::new();
    s.push(92u8);
    s.push(64u8);
    s.push(105u8);
    s.push(110u8);
    s.push(112u8);
    s.push(117u8);
    s.push(116u8);
    proof {
        assert(s@ =~= aux_model()[3].0);
    }
    list.push((s, HashExtra::AuxCommand(AuxCommand::Input)));
    proof {
        assert forall|k: int| base <= k < base + 4 implies (#[trigger] list@[k]).0@
            == aux_model()[k - base].0 && list@[k].1 == aux_model()[k - base].1 by {
            if k == base + 0 {
                assert((list@[base + 0]).0@ == aux_model()[0].0);
                assert(list@[base + 0].1 == aux_model()[0].1);
            } else if k == base + 1 {
                assert((list@[base + 1]).0@ == aux_model()[1].0);
                assert(list@[base + 1].1 == aux_model()[1].1);
            } else if k == base + 2 {
                assert((list@[base + 2]).0@ == aux_model()[2].0);
                assert(list@[base + 2].1 == aux_model()[2].1);
            } else if k == base + 3 {
                assert((list@[base + 3]).0@ == aux_model()[3].0);
                assert(list@[base + 3].1 == aux_model()[3].1);
            }
        }
    }
}

/// Append this group of built-ins to the list.
fn push_bstcmd(list: &mut Vec<(Vec<u8>, HashExtra)>)
    ensures
        final(list)@.len() == old(list)@.len() + 10,
        forall|k: int| 0 <= k < old(list)@.len() ==> #[trigger] final(list)@[k] == old(list)@[k],
        forall|k: int|
            old(list)@.len() <= k < final(list)@.len() ==> (#[trigger] final(list)@[k]).0@ == bst_command_model()[
                k - old(list)@.len()].0 && final(list)@[k].1 == bst_command_model()[k - old(list)@.len()].1,
{
    let ghost base = list@.len() as int;
    let mut s: Vec<u8> = Vec::new();
    s.push(101u8);
    s.push(110u8);
    s.push(116u8);
    s.push(114u8);
    s.push(121u8);
    proof {
        assert(s@ =~= bst_command_model()[0].0);
    }
    list.push((s, HashExtra::BstCommand(BstCommand::Entry)));
    let mut s: Vec<u8> = Vec::new();
    s.push(101u8);
    s.push(120u8);
    s.push(101u8);
    s.push(99u8);
    s.push(117u8);
    s.push(116u8);
    s.push(101u8);
    proof {
        assert(s@ =~= bst_command_model()[1].0);
    }
    list.push((s, HashExtra::BstCommand(BstCommand::Execute)));
    let mut s: Vec<u8> = Vec::new();
    s.push(102u8);
    s.push(117u8);
    s.push(110u8);
    s.push(99u8);
    s.push(116u8);
    s.push(105u8);
    s.push(111u8);
    s.push(110u8);
    proof {
        assert(s@ =~= bst_command_model()[2].0);
    }
    list.push((s, HashExtra::BstCommand(BstCommand::Function)));
    let mut s: Vec<u8> = Vec::new();
    s.push(105u8);
    s.push(110u8);
    s.push(116u8);
    s.push(101u8);
    s.push(103u8);
    s.push(101u8);
    s.push(114u8);
    s.push(115u8);
    proof {
        assert(s@ =~= bst_command_model()[3].0);
    }
    list.push((s, HashExtra::BstCommand(BstCommand::Integers)));
    let mut s: Vec<u8> = Vec::new();
    s.push(105u8);
    s.push(116u8);
    s.push(101u8);
    s.push(114u8);
    s.push(97u8);
    s.push(116u8);
    s.push(101u8);
    proof {
        assert(s@ =~= bst_command_model()[4].0);
    }
    list.push((s, HashExtra::BstCommand(BstCommand::Iterate)));
    let mut s: Vec<u8> = Vec::new();
    s.push(109u8);
    s.push(97u8);
    s.push(99u8);
    s.push(114u8);
    s.push(111u8);
    proof {
        assert(s@ =~= bst_command_model()[5].0);
    }
    list.push((s, HashExtra::BstCommand(BstCommand::Macro)));
    let mut s: Vec<u8> = Vec::new();
    s.push(114u8);
    s.push(101u8);
    s.push(97u8);
    s.push(100u8);
    proof {
        assert(s@ =~= bst_command_model()[6].0);
    }
    list.push((s, HashExtra::BstCommand(BstCommand::Read)));
    let mut s: Vec<u8> = Vec::new();
    s.push(114u8);
    s.push(101u8);
    s.push(118u8);
    s.push(101u8);
    s.push(114u8);
    s.push(115u8);
    s.push(101u8);
    proof {
        assert(s@ =~= bst_command_model()[7].0);
    }
    list.push((s, HashExtra::BstCommand(BstCommand::Reverse)));
    let mut s: Vec<u8> = Vec::new();
    s.push(115u8);
    s.push(111u8);
    s.push(114u8);
    s.push(116u8);
    proof {
        assert(s@ =~= bst_command_model()[8].0);
    }
    list.push((s, HashExtra::BstCommand(BstCommand::Sort)));
    let mut s: Vec<u8> = Vec::new();
    s.push(115u8);
    s.push(116u8);
    s.push(114u8);
    s.push(105u8);
    s.push(110u8);
    s.push(103u8);
    s.push(115u8);
    proof {
        assert(s@ =~= bst_command_model()[9].0);
    }
    list.push((s, HashExtra::BstCommand(BstCommand::Strings)));
    proof {
        assert forall|k: int| base <= k < base + 10 implies (#[trigger] list@[k]).0@
            == bst_command_model()[k - base].0 && list@[k].1 == bst_command_model()[k - base].1 by {
            if k == base + 0 {
                assert((list@[base + 0]).0@ == bst_command_model()[0].0);
                assert(list@[base + 0].1 == bst_command_model()[0].1);
            } else if k == base + 1 {
                assert((list@[base + 1]).0@ == bst_command_model()[1].0);
                assert(list@[base + 1].1 == bst_command_model()[1].1);
            } else if k == base + 2 {
                assert((list@[base + 2]).0@ == bst_command_model()[2].0);
                assert(list@[base + 2].1 == bst_command_model()[2].1);
            } else if k == base + 3 {
                assert((list@[base + 3]).0@ == bst_command_model()[3].0);
                assert(list@[base + 3].1 == bst_command_model()[3].1);
            } else if k == base + 4 {
                assert((list@[base + 4]).0@ == bst_command_model()[4].0);
                assert(list@[base + 4].1 == bst_command_model()[4].1);
            } else if k == base + 5 {
                assert((list@[base + 5]).0@ == bst_command_model()[5].0);
                assert(list@[base + 5].1 == bst_command_model()[5].1);
            } else if k == base + 6 {
                assert((list@[base + 6]).0@ == bst_command_model()[6].0);
                assert(list@[base + 6].1 == bst_command_model()[6].1);
            } else if k == base + 7 {
                assert((list@[base + 7]).0@ == bst_command_model()[7].0);
                assert(list@[base + 7].1 == bst_command_model()[7].1);
            } else if k == base + 8 {
                assert((list@[base + 8]).0@ == bst_command_model()[8].0);
                assert(list@[base + 8].1 == bst_command_model()[8].1);
            } else if k == base + 9 {
                assert((list@[base + 9]).0@ == bst_command_model()[9].0);
                assert(list@[base + 9].1 == bst_command_model()[9].1);
            }
        }
    }
}

/// Append this group of built-ins to the list.
fn push_bibcmd(list: &mut Vec<(Vec<u8>, HashExtra)>)
    ensures
        final(list)@.len() == old(list)@.len() + 3,
        forall|k: int| 0 <= k < old(list)@.len() ==> #[trigger] final(list)@[k] == old(list)@[k],
        forall|k: int|
            old(list)@.len() <= k < final(list)@.len() ==> (#[trigger] final(list)@[k]).0@ == bib_command_model()[
                k - old(list)@.len()].0 && final(list)@[k].1 == bib_command_model()[k - old(list)@.len()].1,
{
    let ghost base = list@.len() as int;
    let mut s: Vec<u8> = Vec::new();
    s.push(99u8);
    s.push(111u8);
    s.push(109u8);
    s.push(109u8);
    s.push(101u8);
    s.push(110u8);
    s.push(116u8);
    proof {
        assert(s@ =~= bib_command_model()[0].0);
    }
    list.push((s, HashExtra::BibCommand(BibCommand::Comment)));
    let mut s: Vec<u8> = Vec::new();
    s.push(112u8);
    s.push(114u8);
    s.push(101u8);
    s.push(97u8);
    s.push(109u8);
    s.push(98u8);
    s.push(108u8);
    s.push(101u8);
    proof {
        assert(s@ =~= bib_command_model()[1].0);
    }
    list.push((s, HashExtra::BibCommand(BibCommand::Preamble)));
    let mut s: Vec<u8> = Vec::new();
    s.push(115u8);
    s.push(116u8);
    s.push(114u8);
    s.push(105u8);
    s.push(110u8);
    s.push(103u8);
    proof {
        assert(s@ =~= bib_command_model()[2].0);
    }
    list.push((s, HashExtra::BibCommand(BibCommand::String)));
    proof {
        assert forall|k: int| base <= k < base + 3 implies (#[trigger] list@[k]).0@
            == bib_command_model()[k - base].0 && list@[k].1 == bib_command_model()[k - base].1 by {
            if k == base + 0 {
                assert((list@[base + 0]).0@ == bib_command_model()[0].0);
                assert(list@[base + 0].1 == bib_command_model()[0].1);
            } else if k == base + 1 {
                assert((list@[base + 1]).0@ == bib_command_model()[1].0);
                assert(list@[base + 1].1 == bib_command_model()[1].1);
            } else if k == base + 2 {
                assert((list@[base + 2]).0@ == bib_command_model()[2].0);
                assert(list@[base + 2].1 == bib_command_model()[2].1);
            }
        }
    }
}

/// Append this group of built-ins to the list.
fn push_builtin0(list: &mut Vec<(Vec<u8>, HashExtra)>)
    ensures
        final(list)@.len() == old(list)@.len() + 10,
        forall|k: int| 0 <= k < old(list)@.len() ==> #[trigger] final(list)@[k] == old(list)@[k],
        forall|k: int|
            old(list)@.len() <= k < final(list)@.len() ==> (#[trigger] final(list)@[k]).0@ == builtin_model_a()[
                k - old(list)@.len()].0 && final(list)@[k].1 == builtin_model_a()[k - old(list)@.len()].1,
{
    let ghost base = list@.len() as int;
    let mut s: Vec<u8> = Vec::new();
    s.push(61u8);
    proof {
        assert(s@ =~= builtin_model_a()[0].0);
    }
    list.push((s, HashExtra::BstFn(BstFn::Builtin(BstBuiltin::Eq))));
    let mut s: Vec<u8> = Vec::new();
    s.push(62u8);
    proof {
        assert(s@ =~= builtin_model_a()[1].0);
    }
    list.push((s, HashExtra::BstFn(BstFn::Builtin(BstBuiltin::Gt))));
    let mut s: Vec<u8> = Vec::new();
    s.push(60u8);
    proof {
        assert(s@ =~= builtin_model_a()[2].0);
    }
    list.push((s, HashExtra::BstFn(BstFn::Builtin(BstBuiltin::Lt))));
    let mut s: Vec<u8> = Vec::new();
    s.push(43u8);
    proof {
        assert(s@ =~= builtin_model_a()[3].0);
    }
    list.push((s, HashExtra::BstFn(BstFn::Builtin(BstBuiltin::Plus))));
    let mut s: Vec<u8> = Vec::new();
    s.push(45u8);
    proof {
        assert(s@ =~= builtin_model_a()[4].0);
    }
    list.push((s, HashExtra::BstFn(BstFn::Builtin(BstBuiltin::Minus))));
    let mut s: Vec<u8> = Vec::new();
    s.push(42u8);
    proof {
        assert(s@ =~= builtin_model_a()[5].0);
    }
    list.push((s, HashExtra::BstFn(BstFn::Builtin(BstBuiltin::Concat))));
    let mut s: Vec<u8> = Vec::new();
    s.push(58u8);
    s.push(61u8);
    proof {
        assert(s@ =~= builtin_model_a()[6].0);
    }
    list.push((s, HashExtra::BstFn(BstFn::Builtin(BstBuiltin::Assign))));
    let mut s: Vec<u8> = Vec::new();
    s.push(97u8);
    s.push(100u8);
    s.push(100u8);
    s.push(46u8);
    s.push(112u8);
    s.push(101u8);
    s.push(114u8);
    s.push(105u8);
    s.push(111u8);
    s.push(100u8);
    s.push(36u8);
    proof {
        assert(s@ =~= builtin_model_a()[7].0);
    }
    list.push((s, HashExtra::BstFn(BstFn::Builtin(BstBuiltin::AddPeriod))));
    let mut s: Vec<u8> = Vec::new();
    s.push(99u8);
    s.push(97u8);
    s.push(108u8);
    s.push(108u8);
    s.push(46u8);
    s.push(116u8);
    s.push(121u8);
    s.push(112u8);
    s.push(101u8);
    s.push(36u8);
    proof {
        assert(s@ =~= builtin_model_a()[8].0);
    }
    list.push((s, HashExtra::BstFn(BstFn::Builtin(BstBuiltin::CallType))));
    let mut s: Vec<u8> = Vec::new();
    s.push(99u8);
    s.push(104u8);
    s.push(97u8);
    s.push(110u8);
    s.push(103u8);
    s.push(101u8);
    s.push(46u8);
    s.push(99u8);
    s.push(97u8);
    s.push(115u8);
    s.push(101u8);
    s.push(36u8);
    proof {
        assert(s@ =~= builtin_model_a()[9].0);
    }
    list.push((s, HashExtra::BstFn(BstFn::Builtin(BstBuiltin::ChangeCase))));
    proof {
        assert forall|k: int| base <= k < base + 10 implies (#[trigger] list@[k]).0@
            == builtin_model_a()[k - base].0 && list@[k].1 == builtin_model_a()[k - base].1 by {
            if k == base + 0 {
                assert((list@[base + 0]).0@ == builtin_model_a()[0].0);
                assert(list@[base + 0].1 == builtin_model_a()[0].1);
            } else if k == base + 1 {
                assert((list@[base + 1]).0@ == builtin_model_a()[1].0);
                assert(list@[base + 1].1 == builtin_model_a()[1].1);
            } else if k == base + 2 {
                assert((list@[base + 2]).0@ == builtin_model_a()[2].0);
                assert(list@[base + 2].1 == builtin_model_a()[2].1);
            } else if k == base + 3 {
                assert((list@[base + 3]).0@ == builtin_model_a()[3].0);
                assert(list@[base + 3].1 == builtin_model_a()[3].1);
            } else if k == base + 4 {
                assert((list@[base + 4]).0@ == builtin_model_a()[4].0);
                assert(list@[base + 4].1 == builtin_model_a()[4].1);
            } else if k == base + 5 {
                assert((list@[base + 5]).0@ == builtin_model_a()[5].0);
                assert(list@[base + 5].1 == builtin_model_a()[5].1);
            } else if k == base + 6 {
                assert((list@[base + 6]).0@ == builtin_model_a()[6].0);
                assert(list@[base + 6].1 == builtin_model_a()[6].1);
            } else if k == base + 7 {
                assert((list@[base + 7]).0@ == builtin_model_a()[7].0);
                assert(list@[base + 7].1 == builtin_model_a()[7].1);
            } else if k == base + 8 {
                assert((list@[base + 8]).0@ == builtin_model_a()[8].0);
                assert(list@[base + 8].1 == builtin_model_a()[8].1);
            } else if k == base + 9 {
                assert((list@[base + 9]).0@ == builtin_model_a()[9].0);
                assert(list@[base + 9].1 == builtin_model_a()[9].1);
            }
        }
    }
}

/// Append this group of built-ins to the list.
fn push_builtin1(list: &mut Vec<(Vec<u8>, HashExtra)>)
    ensures
        final(list)@.len() == old(list)@.len() + 10,
        forall|k: int| 0 <= k < old(list)@.len() ==> #[trigger] final(list)@[k] == old(list)@[k],
        forall|k: int|
            old(list)@.len() <= k < final(list)@.len() ==> (#[trigger] final(list)@[k]).0@ == builtin_model_b()[
                k - old(list)@.len()].0 && final(list)@[k].1 == builtin_model_b()[k - old(list)@.len()].1,
{
    let ghost base = list@.len() as int;
    let mut s: Vec<u8> = Vec::new();
    s.push(99u8);
    s.push(104u8);
    s.push(114u8);
    s.push(46u8);
    s.push(116u8);
    s.push(111u8);
    s.push(46u8);
    s.push(105u8);
    s.push(110u8);
    s.push(116u8);
    s.push(36u8);
    proof {
        assert(s@ =~= builtin_model_b()[0].0);
    }
    list.push((s, HashExtra::BstFn(BstFn::Builtin(BstBuiltin::ChrToInt))));
    let mut s: Vec<u8> = Vec::new();
    s.push(99u8);
    s.push(105u8);
    s.push(116u8);
    s.push(101u8);
    s.push(36u8);
    proof {
        assert(s@ =~= builtin_model_b()[1].0);
    }
    list.push((s, HashExtra::BstFn(BstFn::Builtin(BstBuiltin::Cite))));
    let mut s: Vec<u8> = Vec::new();
    s.push(100u8);
    s.push(117u8);
    s.push(112u8);
    s.push(108u8);
    s.push(105u8);
    s.push(99u8);
    s.push(97u8);
    s.push(116u8);
    s.push(101u8);
    s.push(36u8);
    proof {
        assert(s@ =~= builtin_model_b()[2].0);
    }
    list.push((s, HashExtra::BstFn(BstFn::Builtin(BstBuiltin::Duplicate))));
    let mut s: Vec<u8> = Vec::new();
    s.push(101u8);
    s.push(109u8);
    s.push(112u8);
    s.push(116u8);
    s.push(121u8);
    s.push(36u8);
    proof {
        assert(s@ =~= builtin_model_b()[3].0);
    }
    list.push((s, HashExtra::BstFn(BstFn::Builtin(BstBuiltin::Empty))));
    let mut s: Vec<u8> = Vec::new();
    s.push(102u8);
    s.push(111u8);
    s.push(114u8);
    s.push(109u8);
    s.push(97u8);
    s.push(116u8);
    s.push(46u8);
    s.push(110u8);
    s.push(97u8);
    s.push(109u8);
    s.push(101u8);
    s.push(36u8);
    proof {
        assert(s@ =~= builtin_model_b()[4].0);
    }
    list.push((s, HashExtra::BstFn(BstFn::Builtin(BstBuiltin::FormatName))));
    let mut s: Vec<u8> = Vec::new();
    s.push(105u8);
    s.push(102u8);
    s.push(36u8);
    proof {
        assert(s@ =~= builtin_model_b()[5].0);
    }
    list.push((s, HashExtra::BstFn(BstFn::Builtin(BstBuiltin::If))));
    let mut s: Vec<u8> = Vec::new();
    s.push(105u8);
    s.push(110u8);
    s.push(116u8);
    s.push(46u8);
    s.push(116u8);
    s.push(111u8);
    s.push(46u8);
    s.push(99u8);
    s.push(104u8);
    s.push(114u8);
    s.push(36u8);
    proof {
        assert(s@ =~= builtin_model_b()[6].0);
    }
    list.push((s, HashExtra::BstFn(BstFn::Builtin(BstBuiltin::IntToChr))));
    let mut s: Vec<u8> = Vec::new();
    s.push(105u8);
    s.push(110u8);
    s.push(116u8);
    s.push(46u8);
    s.push(116u8);
    s.push(111u8);
    s.push(46u8);
    s.push(115u8);
    s.push(116u8);
    s.push(114u8);
    s.push(36u8);
    proof {
        assert(s@ =~= builtin_model_b()[7].0);
    }
    list.push((s, HashExtra::BstFn(BstFn::Builtin(BstBuiltin::IntToStr))));
    let mut s: Vec<u8> = Vec::new();
    s.push(109u8);
    s.push(105u8);
    s.push(115u8);
    s.push(115u8);
    s.push(105u8);
    s.push(110u8);
    s.push(103u8);
    s.push(36u8);
    proof {
        assert(s@ =~= builtin_model_b()[8].0);
    }
    list.push((s, HashExtra::BstFn(BstFn::Builtin(BstBuiltin::Missing))));
    let mut s: Vec<u8> = Vec::new();
    s.push(110u8);
    s.push(101u8);
    s.push(119u8);
    s.push(108u8);
    s.push(105u8);
    s.push(110u8);
    s.push(101u8);
    s.push(36u8);
    proof {
        assert(s@ =~= builtin_model_b()[9].0);
    }
    list.push((s, HashExtra::BstFn(BstFn::Builtin(BstBuiltin::Newline))));
    proof {
        assert forall|k: int| base <= k < base + 10 implies (#[trigger] list@[k]).0@
            == builtin_model_b()[k - base].0 && list@[k].1 == builtin_model_b()[k - base].1 by {
            if k == base + 0 {
                assert((list@[base + 0]).0@ == builtin_model_b()[0].0);
                assert(list@[base + 0].1 == builtin_model_b()[0].1);
            } else if k == base + 1 {
                assert((list@[base + 1]).0@ == builtin_model_b()[1].0);
                assert(list@[base + 1].1 == builtin_model_b()[1].1);
            } else if k == base + 2 {
                assert((list@[base + 2]).0@ == builtin_model_b()[2].0);
                assert(list@[base + 2].1 == builtin_model_b()[2].1);
            } else if k == base + 3 {
                assert((list@[base + 3]).0@ == builtin_model_b()[3].0);
                assert(list@[base + 3].1 == builtin_model_b()[3].1);
            } else if k == base + 4 {
                assert((list@[base + 4]).0@ == builtin_model_b()[4].0);
                assert(list@[base + 4].1 == builtin_model_b()[4].1);
            } else if k == base + 5 {
                assert((list@[base + 5]).0@ == builtin_model_b()[5].0);
                assert(list@[base + 5].1 == builtin_model_b()[5].1);
            } else if k == base + 6 {
                assert((list@[base + 6]).0@ == builtin_model_b()[6].0);
                assert(list@[base + 6].1 == builtin_model_b()[6].1);
            } else if k == base + 7 {
                assert((list@[base + 7]).0@ == builtin_model_b()[7].0);
                assert(list@[base + 7].1 == builtin_model_b()[7].1);
            } else if k == base + 8 {
                assert((list@[base + 8]).0@ == builtin_model_b()[8].0);
                assert(list@[base + 8].1 == builtin_model_b()[8].1);
            } else if k == base + 9 {
                assert((list@[base + 9]).0@ == builtin_model_b()[9].0);
                assert(list@[base + 9].1 == builtin_model_b()[9].1);
            }
        }
    }
}

/// Append this group of built-ins to the list.
fn push_builtin2(list: &mut Vec<(Vec<u8>, HashExtra)>)
    ensures
        final(list)@.len() == old(list)@.len() + 10,
        forall|k: int| 0 <= k < old(list)@.len() ==> #[trigger] final(list)@[k] == old(list)@[k],
        forall|k: int|
            old(list)@.len() <= k < final(list)@.len() ==> (#[trigger] final(list)@[k]).0@ == builtin_model_c()[
                k - old(list)@.len()].0 && final(list)@[k].1 == builtin_model_c()[k - old(list)@.len()].1,
{
    let ghost base = list@.len() as int;
    let mut s: Vec<u8> = Vec::new();
    s.push(110u8);
    s.push(117u8);
    s.push(109u8);
    s.push(46u8);
    s.push(110u8);
    s.push(97u8);
    s.push(109u8);
    s.push(101u8);
    s.push(115u8);
    s.push(36u8);
    proof {
        assert(s@ =~= builtin_model_c()[0].0);
    }
    list.push((s, HashExtra::BstFn(BstFn::Builtin(BstBuiltin::NumNames))));
    let mut s: Vec<u8> = Vec::new();
    s.push(112u8);
    s.push(111u8);
    s.push(112u8);
    s.push(36u8);
    proof {
        assert(s@ =~= builtin_model_c()[1].0);
    }
    list.push((s, HashExtra::BstFn(BstFn::Builtin(BstBuiltin::Pop))));
    let mut s: Vec<u8> = Vec::new();
    s.push(112u8);
    s.push(114u8);
    s.push(101u8);
    s.push(97u8);
    s.push(109u8);
    s.push(98u8);
    s.push(108u8);
    s.push(101u8);
    s.push(36u8);
    proof {
        assert(s@ =~= builtin_model_c()[2].0);
    }
    list.push((s, HashExtra::BstFn(BstFn::Builtin(BstBuiltin::Preamble))));
    let mut s: Vec<u8> = Vec::new();
    s.push(112u8);
    s.push(117u8);
    s.push(114u8);
    s.push(105u8);
    s.push(102u8);
    s.push(121u8);
    s.push(36u8);
    proof {
        assert(s@ =~= builtin_model_c()[3].0);
    }
    list.push((s, HashExtra::BstFn(BstFn::Builtin(BstBuiltin::Purify))));
    let mut s: Vec<u8> = Vec::new();
    s.push(113u8);
    s.push(117u8);
    s.push(111u8);
    s.push(116u8);
    s.push(101u8);
    s.push(36u8);
    proof {
        assert(s@ =~= builtin_model_c()[4].0);
    }
    list.push((s, HashExtra::BstFn(BstFn::Builtin(BstBuiltin::Quote))));
    let mut s: Vec<u8> = Vec::new();
    s.push(115u8);
    s.push(107u8);
    s.push(105u8);
    s.push(112u8);
    s.push(36u8);
    proof {
        assert(s@ =~= builtin_model_c()[5].0);
    }
    list.push((s, HashExtra::BstFn(BstFn::Builtin(BstBuiltin::Skip))));
    let mut s: Vec<u8> = Vec::new();
    s.push(115u8);
    s.push(116u8);
    s.push(97u8);
    s.push(99u8);
    s.push(107u8);
    s.push(36u8);
    proof {
        assert(s@ =~= builtin_model_c()[6].0);
    }
    list.push((s, HashExtra::BstFn(BstFn::Builtin(BstBuiltin::Stack))));
    let mut s: Vec<u8> = Vec::new();
    s.push(115u8);
    s.push(117u8);
    s.push(98u8);
    s.push(115u8);
    s.push(116u8);
    s.push(114u8);
    s.push(105u8);
    s.push(110u8);
    s.push(103u8);
    s.push(36u8);
    proof {
        assert(s@ =~= builtin_model_c()[7].0);
    }
    list.push((s, HashExtra::BstFn(BstFn::Builtin(BstBuiltin::Substring))));
    let mut s: Vec<u8> = Vec::new();
    s.push(115u8);
    s.push(119u8);
    s.push(97u8);
    s.push(112u8);
    s.push(36u8);
    proof {
        assert(s@ =~= builtin_model_c()[8].0);
    }
    list.push((s, HashExtra::BstFn(BstFn::Builtin(BstBuiltin::Swap))));
    let mut s: Vec<u8> = Vec::new();
    s.push(116u8);
    s.push(101u8);
    s.push(120u8);
    s.push(116u8);
    s.push(46u8);
    s.push(108u8);
    s.push(101u8);
    s.push(110u8);
    s.push(103u8);
    s.push(116u8);
    s.push(104u8);
    s.push(36u8);
    proof {
        assert(s@ =~= builtin_model_c()[9].0);
    }
    list.push((s, HashExtra::BstFn(BstFn::Builtin(BstBuiltin::TextLength))));
    proof {
        assert forall|k: int| base <= k < base + 10 implies (#[trigger] list@[k]).0@
            == builtin_model_c()[k - base].0 && list@[k].1 == builtin_model_c()[k - base].1 by {
            if k == base + 0 {
                assert((list@[base + 0]).0@ == builtin_model_c()[0].0);
                assert(list@[base + 0].1 == builtin_model_c()[0].1);
            } else if k == base + 1 {
                assert((list@[base + 1]).0@ == builtin_model_c()[1].0);
                assert(list@[base + 1].1 == builtin_model_c()[1].1);
            } else if k == base + 2 {
                assert((list@[base + 2]).0@ == builtin_model_c()[2].0);
                assert(list@[base + 2].1 == builtin_model_c()[2].1);
            } else if k == base + 3 {
                assert((list@[base + 3]).0@ == builtin_model_c()[3].0);
                assert(list@[base + 3].1 == builtin_model_c()[3].1);
            } else if k == base + 4 {
                assert((list@[base + 4]).0@ == builtin_model_c()[4].0);
                assert(list@[base + 4].1 == builtin_model_c()[4].1);
            } else if k == base + 5 {
                assert((list@[base + 5]).0@ == builtin_model_c()[5].0);
                assert(list@[base + 5].1 == builtin_model_c()[5].1);
            } else if k == base + 6 {
                assert((list@[base + 6]).0@ == builtin_model_c()[6].0);
                assert(list@[base + 6].1 == builtin_model_c()[6].1);
            } else if k == base + 7 {
                assert((list@[base + 7]).0@ == builtin_model_c()[7].0);
                assert(list@[base + 7].1 == builtin_model_c()[7].1);
            } else if k == base + 8 {
                assert((list@[base + 8]).0@ == builtin_model_c()[8].0);
                assert(list@[base + 8].1 == builtin_model_c()[8].1);
            } else if k == base + 9 {
                assert((list@[base + 9]).0@ == builtin_model_c()[9].0);
                assert(list@[base + 9].1 == builtin_model_c()[9].1);
            }
        }
    }
}

/// Append this group of built-ins to the list.
fn push_builtin3(list: &mut Vec<(Vec<u8>, HashExtra)>)
    ensures
        final(list)@.len() == old(list)@.len() + 7,
        forall|k: int| 0 <= k < old(list)@.len() ==> #[trigger] final(list)@[k] == old(list)@[k],
        forall|k: int|
            old(list)@.len() <= k < final(list)@.len() ==> (#[trigger] final(list)@[k]).0@ == builtin_model_d()[
                k - old(list)@.len()].0 && final(list)@[k].1 == builtin_model_d()[k - old(list)@.len()].1,
{
    let ghost base = list@.len() as int;
    let mut s: Vec<u8> = Vec::new();
    s.push(116u8);
    s.push(101u8);
    s.push(120u8);
    s.push(116u8);
    s.push(46u8);
    s.push(112u8);
    s.push(114u8);
    s.push(101u8);
    s.push(102u8);
    s.push(105u8);
    s.push(120u8);
    s.push(36u8);
    proof {
        assert(s@ =~= builtin_model_d()[0].0);
    }
    list.push((s, HashExtra::BstFn(BstFn::Builtin(BstBuiltin::TextPrefix))));
    let mut s: Vec<u8> = Vec::new();
    s.push(116u8);
    s.push(111u8);
    s.push(112u8);
    s.push(36u8);
    proof {
        assert(s@ =~= builtin_model_d()[1].0);
    }
    list.push((s, HashExtra::BstFn(BstFn::Builtin(BstBuiltin::Top))));
    let mut s: Vec<u8> = Vec::new();
    s.push(116u8);
    s.push(121u8);
    s.push(112u8);
    s.push(101u8);
    s.push(36u8);
    proof {
        assert(s@ =~= builtin_model_d()[2].0);
    }
    list.push((s, HashExtra::BstFn(BstFn::Builtin(BstBuiltin::Type))));
    let mut s: Vec<u8> = Vec::new();
    s.push(119u8);
    s.push(97u8);
    s.push(114u8);
    s.push(110u8);
    s.push(105u8);
    s.push(110u8);
    s.push(103u8);
    s.push(36u8);
    proof {
        assert(s@ =~= builtin_model_d()[3].0);
    }
    list.push((s, HashExtra::BstFn(BstFn::Builtin(BstBuiltin::Warning))));
    let mut s: Vec<u8> = Vec::new();
    s.push(119u8);
    s.push(104u8);
    s.push(105u8);
    s.push(108u8);
    s.push(101u8);
    s.push(36u8);
    proof {
        assert(s@ =~= builtin_model_d()[4].0);
    }
    list.push((s, HashExtra::BstFn(BstFn::Builtin(BstBuiltin::While))));
    let mut s: Vec<u8> = Vec::new();
    s.push(119u8);
    s.push(105u8);
    s.push(100u8);
    s.push(116u8);
    s.push(104u8);
    s.push(36u8);
    proof {
        assert(s@ =~= builtin_model_d()[5].0);
    }
    list.push((s, HashExtra::BstFn(BstFn::Builtin(BstBuiltin::Width))));
    let mut s: Vec<u8> = Vec::new();
    s.push(119u8);
    s.push(114u8);
    s.push(105u8);
    s.push(116u8);
    s.push(101u8);
    s.push(36u8);
    proof {
        assert(s@ =~= builtin_model_d()[6].0);
    }
    list.push((s, HashExtra::BstFn(BstFn::Builtin(BstBuiltin::Write))));
    proof {
        assert forall|k: int| base <= k < base + 7 implies (#[trigger] list@[k]).0@
            == builtin_model_d()[k - base].0 && list@[k].1 == builtin_model_d()[k - base].1 by {
            if k == base + 0 {
                assert((list@[base + 0]).0@ == builtin_model_d()[0].0);
                assert(list@[base + 0].1 == builtin_model_d()[0].1);
            } else if k == base + 1 {
                assert((list@[base + 1]).0@ == builtin_model_d()[1].0);
                assert(list@[base + 1].1 == builtin_model_d()[1].1);
            } else if k == base + 2 {
                assert((list@[base + 2]).0@ == builtin_model_d()[2].0);
                assert(list@[base + 2].1 == builtin_model_d()[2].1);
            } else if k == base + 3 {
                assert((list@[base + 3]).0@ == builtin_model_d()[3].0);
                assert(list@[base + 3].1 == builtin_model_d()[3].1);
            } else if k == base + 4 {
                assert((list@[base + 4]).0@ == builtin_model_d()[4].0);
                assert(list@[base + 4].1 == builtin_model_d()[4].1);
            } else if k == base + 5 {
                assert((list@[base + 5]).0@ == builtin_model_d()[5].0);
                assert(list@[base + 5].1 == builtin_model_d()[5].1);
            } else if k == base + 6 {
                assert((list@[base + 6]).0@ == builtin_model_d()[6].0);
                assert(list@[base + 6].1 == builtin_model_d()[6].1);
            }
        }
    }
}

/// Append this group of built-ins to the list.
fn push_ctrl(list: &mut Vec<(Vec<u8>, HashExtra)>)
    ensures
        final(list)@.len() == old(list)@.len() + 13,
        forall|k: int| 0 <= k < old(list)@.len() ==> #[trigger] final(list)@[k] == old(list)@[k],
        forall|k: int|
            old(list)@.len() <= k < final(list)@.len() ==> (#[trigger] final(list)@[k]).0@ == control_seq_model()[
                k - old(list)@.len()].0 && final(list)@[k].1 == control_seq_model()[k - old(list)@.len()].1,
{
    let ghost base = list@.len() as int;
    let mut s: Vec<u8> = Vec::new();
    s.push(92u8);
    s.push(105u8);
    proof {
        assert(s@ =~= control_seq_model()[0].0);
    }
    list.push((s, HashExtra::ControlSeq(ControlSeq::LowerI)));
    let mut s: Vec<u8> = Vec::new();
    s.push(92u8);
    s.push(106u8);
    proof {
        assert(s@ =~= control_seq_model()[1].0);
    }
    list.push((s, HashExtra::ControlSeq(ControlSeq::LowerJ)));
    let mut s: Vec<u8> = Vec::new();
    s.push(92u8);
    s.push(79u8);
    s.push(69u8);
    proof {
        assert(s@ =~= control_seq_model()[2].0);
    }
    list.push((s, HashExtra::ControlSeq(ControlSeq::UpperOe)));
    let mut s: Vec<u8> = Vec::new();
    s.push(92u8);
    s.push(111u8);
    s.push(101u8);
    proof {
        assert(s@ =~= control_seq_model()[3].0);
    }
    list.push((s, HashExtra::ControlSeq(ControlSeq::LowerOe)));
    let mut s: Vec<u8> = Vec::new();
    s.push(92u8);
    s.push(65u8);
    s.push(69u8);
    proof {
        assert(s@ =~= control_seq_model()[4].0);
    }
    list.push((s, HashExtra::ControlSeq(ControlSeq::UpperAe)));
    let mut s: Vec<u8> = Vec::new();
    s.push(92u8);
    s.push(97u8);
    s.push(101u8);
    proof {
        assert(s@ =~= control_seq_model()[5].0);
    }
    list.push((s, HashExtra::ControlSeq(ControlSeq::LowerAe)));
    let mut s: Vec<u8> = Vec::new();
    s.push(92u8);
    s.push(65u8);
    s.push(65u8);
    proof {
        assert(s@ =~= control_seq_model()[6].0);
    }
    list.push((s, HashExtra::ControlSeq(ControlSeq::UpperAa)));
    let mut s: Vec<u8> = Vec::new();
    s.push(92u8);
    s.push(97u8);
    s.push(97u8);
    proof {
        assert(s@ =~= control_seq_model()[7].0);
    }
    list.push((s, HashExtra::ControlSeq(ControlSeq::LowerAa)));
    let mut s: Vec<u8> = Vec::new();
    s.push(92u8);
    s.push(79u8);
    proof {
        assert(s@ =~= control_seq_model()[8].0);
    }
    list.push((s, HashExtra::ControlSeq(ControlSeq::UpperO)));
    let mut s: Vec<u8> = Vec::new();
    s.push(92u8);
    s.push(111u8);
    proof {
        assert(s@ =~= control_seq_model()[9].0);
    }
    list.push((s, HashExtra::ControlSeq(ControlSeq::LowerO)));
    let mut s: Vec<u8> = Vec::new();
    s.push(92u8);
    s.push(76u8);
    proof {
        assert(s@ =~= control_seq_model()[10].0);
    }
    list.push((s, HashExtra::ControlSeq(ControlSeq::UpperL)));
    let mut s: Vec<u8> = Vec::new();
    s.push(92u8);
    s.push(108u8);
    proof {
        assert(s@ =~= control_seq_model()[11].0);
    }
    list.push((s, HashExtra::ControlSeq(ControlSeq::LowerL)));
    let mut s: Vec<u8> = Vec::new();
    s.push(92u8);
    s.push(115u8);
    s.push(115u8);
    proof {
        assert(s@ =~= control_seq_model()[12].0);
    }
    list.push((s, HashExtra::ControlSeq(ControlSeq::LowerSs)));
    proof {
        assert forall|k: int| base <= k < base + 13 implies (#[trigger] list@[k]).0@
            == control_seq_model()[k - base].0 && list@[k].1 == control_seq_model()[k - base].1 by {
            if k == base + 0 {
                assert((list@[base + 0]).0@ == control_seq_model()[0].0);
                assert(list@[base + 0].1 == control_seq_model()[0].1);
            } else if k == base + 1 {
                assert((list@[base + 1]).0@ == control_seq_model()[1].0);
                assert(list@[base + 1].1 == control_seq_model()[1].1);
            } else if k == base + 2 {
                assert((list@[base + 2]).0@ == control_seq_model()[2].0);
                assert(list@[base + 2].1 == control_seq_model()[2].1);
            } else if k == base + 3 {
                assert((list@[base + 3]).0@ == control_seq_model()[3].0);
                assert(list@[base + 3].1 == control_seq_model()[3].1);
            } else if k == base + 4 {
                assert((list@[base + 4]).0@ == control_seq_model()[4].0);
                assert(list@[base + 4].1 == control_seq_model()[4].1);
            } else if k == base + 5 {
                assert((list@[base + 5]).0@ == control_seq_model()[5].0);
                assert(list@[base + 5].1 == control_seq_model()[5].1);
            } else if k == base + 6 {
                assert((list@[base + 6]).0@ == control_seq_model()[6].0);
                assert(list@[base + 6].1 == control_seq_model()[6].1);
            } else if k == base + 7 {
                assert((list@[base + 7]).0@ == control_seq_model()[7].0);
                assert(list@[base + 7].1 == control_seq_model()[7].1);
            } else if k == base + 8 {
                assert((list@[base + 8]).0@ == control_seq_model()[8].0);
                assert(list@[base + 8].1 == control_seq_model()[8].1);
            } else if k == base + 9 {
                assert((list@[base + 9]).0@ == control_seq_model()[9].0);
                assert(list@[base + 9].1 == control_seq_model()[9].1);
            } else if k == base + 10 {
                assert((list@[base + 10]).0@ == control_seq_model()[10].0);
                assert(list@[base + 10].1 == control_seq_model()[10].1);
            } else if k == base + 11 {
                assert((list@[base + 11]).0@ == control_seq_model()[11].0);
                assert(list@[base + 11].1 == control_seq_model()[11].1);
            } else if k == base + 12 {
                assert((list@[base + 12]).0@ == control_seq_model()[12].0);
                assert(list@[base + 12].1 == control_seq_model()[12].1);
            }
        }
    }
}

/// The built-in strings with their payloads: exactly the pairs of
/// `predefined_model`, in its order.
pub fn predefined_list() -> (r: Vec<(Vec<u8>, HashExtra)>)
    ensures
        r@.len() == predefined_model().len(),
        r@.len() == NUM_PREDEFINED,
        forall|k: int|
            0 <= k < r@.len() ==> (#[trigger] r@[k]).0@ == predefined_model()[k].0 && r@[k].1
                == predefined_model()[k].1,
{
    let mut list: Vec<(Vec<u8>, HashExtra)> = Vec::new();
    push_aux(&mut list);
    push_bstcmd(&mut list);
    push_bibcmd(&mut list);
    push_builtin0(&mut list);
    push_builtin1(&mut list);
    push_builtin2(&mut list);
    push_builtin3(&mut list);
    push_ctrl(&mut list);
    proof {
        assert(aux_model().len() == 4);
        assert(bst_command_model().len() == 10);
        assert(bib_command_model().len() == 3);
        assert(builtin_model_a().len() == 10);
        assert(builtin_model_b().len() == 10);
        assert(builtin_model_c().len() == 10);
        assert(builtin_model_d().len() == 7);
        assert(control_seq_model().len() == 13);
        assert(list@.len() == 67);
        assert forall|k: int|
            0 <= k < list@.len() implies (#[trigger] list@[k]).0@ == predefined_model()[k].0
            && list@[k].1 == predefined_model()[k].1 by {
            if k < 4 {
                assert(predefined_model()[k] == aux_model()[k - 0]);
            } else if k < 14 {
                assert(predefined_model()[k] == bst_command_model()[k - 4]);
            } else if k < 17 {
                assert(predefined_model()[k] == bib_command_model()[k - 14]);
            } else if k < 27 {
                assert(predefined_model()[k] == builtin_model_a()[k - 17]);
            } else if k < 37 {
                assert(predefined_model()[k] == builtin_model_b()[k - 27]);
            } else if k < 47 {
                assert(predefined_model()[k] == builtin_model_c()[k - 37]);
            } else if k < 54 {
                assert(predefined_model()[k] == builtin_model_d()[k - 47]);
            } else if k < 67 {
                assert(predefined_model()[k] == control_seq_model()[k - 54]);
            }
        }
    }
    list
}

/// The pairs of an executable list, as the model sees them.
pub open spec fn pairs_view(l: Seq<(Vec<u8>, HashExtra)>) -> Seq<(Seq<u8>, HashExtra)> {
    Seq::new(l.len(), |i: int| (l[i].0@, l[i].1))
}

/// The model after interning a list of pairs in order: a pair whose
/// bytes are already held changes nothing, a fresh one is appended.
pub open spec fn interned_after(
    m: Seq<(Seq<u8>, HashExtra)>,
    l: Seq<(Seq<u8>, HashExtra)>,
) -> Seq<(Seq<u8>, HashExtra)>
    decreases l.len(),
{
    if l.len() == 0 {
        m
    } else {
        interned_after(
            if has_bytes(m, l[0].0) {
                m
            } else {
                m.push(l[0])
            },
            l.subrange(1, l.len() as int),
        )
    }
}

/// Interning a list never shrinks the model.
pub proof fn lemma_interned_after_len(m: Seq<(Seq<u8>, HashExtra)>, l: Seq<(Seq<u8>, HashExtra)>)
    ensures
        interned_after(m, l).len() >= m.len(),
    decreases l.len(),
{
    if l.len() > 0 {
        let m1 = if has_bytes(m, l[0].0) {
            m
        } else {
            m.push(l[0])
        };
        lemma_interned_after_len(m1, l.subrange(1, l.len() as int));
    }
}

/// Intern every pair of `list`, in order: the table's model becomes
/// exactly `interned_after` of it, so fresh pairs take the next
/// identifiers in list order and every listed byte sequence is
/// present afterwards. Strings interned earlier keep their
/// identifiers, and the one failure is running out of string
/// capacity — which cannot happen when the resulting model fits the
/// capacity.
pub fn pre_def_certain_strings(t: &mut SymbolTable, list: &Vec<(Vec<u8>, HashExtra)>) -> (r:
    Result<(), InternError>)
    requires
        old(t).wf(),
    ensures
        final(t).wf(),
        final(t).hash_size_spec() == old(t).hash_size_spec(),
        final(t).prime_spec() == old(t).prime_spec(),
        final(t).capacity_spec() == old(t).capacity_spec(),
        model_extends(old(t).interned(), final(t).interned()),
        final(t).interned().len() <= old(t).interned().len() + list@.len(),
        r matches Ok(_) ==> final(t).interned() == interned_after(
            old(t).interned(),
            pairs_view(list@),
        ),
        r matches Ok(_) ==> forall|j: int|
            0 <= j < list@.len() ==> has_bytes(final(t).interned(), (#[trigger] list@[j]).0@),
        r matches Err(e) ==> e == InternError::CapacityExceeded && final(t).interned().len()
            >= final(t).capacity_spec() && interned_after(
            old(t).interned(),
            pairs_view(list@),
        ).len() > old(t).capacity_spec(),
{
    let ghost pv = pairs_view(list@);
    let ghost n = list@.len() as int;
    proof {
        assert(pv.subrange(0, n) =~= pv);
    }
    let mut i: usize = 0;
    while i < list.len()
        invariant
            t.wf(),
            t.hash_size_spec() == old(t).hash_size_spec(),
            t.prime_spec() == old(t).prime_spec(),
            t.capacity_spec() == old(t).capacity_spec(),
            pv == pairs_view(list@),
            n == list@.len() as int,
            i <= list@.len(),
            model_extends(old(t).interned(), t.interned()),
            t.interned().len() <= old(t).interned().len() + i as int,
            interned_after(old(t).interned(), pv) == interned_after(
                t.interned(),
                pv.subrange(i as int, n),
            ),
            forall|j: int| 0 <= j < i as int ==> has_bytes(t.interned(), (#[trigger] list@[j]).0@),
        decreases list@.len() - i,
    {
        let ghost m_before = t.interned();
        let pair = &list[i];
        proof {
            assert(pv.subrange(i as int, n)[0] == pv[i as int]);
            assert(pv[i as int] == (list@[i as int].0@, list@[i as int].1));
            assert(pv.subrange(i as int, n).subrange(1, n - i) =~= pv.subrange(i as int + 1, n));
        }
        let res = t.intern(&pair.0, pair.1, true);
        match res {
            Err(e) => {
                proof {
                    // the full list's model would exceed the capacity
                    assert(!has_bytes(m_before, pv[i as int].0));
                    assert(interned_after(m_before, pv.subrange(i as int, n)) == interned_after(
                        m_before.push(pv[i as int]),
                        pv.subrange(i as int + 1, n),
                    ));
                    lemma_interned_after_len(
                        m_before.push(pv[i as int]),
                        pv.subrange(i as int + 1, n),
                    );
                }
                return Err(e);
            },
            Ok(_) => {},
        }
        proof {
            if has_bytes(m_before, pv[i as int].0) {
                assert(t.interned() == m_before);
            } else {
                assert(t.interned() == m_before.push(pv[i as int]));
            }
            assert(interned_after(m_before, pv.subrange(i as int, n)) == interned_after(
                t.interned(),
                pv.subrange(i as int + 1, n),
            ));
            assert forall|j: int| 0 <= j < i as int + 1 implies has_bytes(
                t.interned(),
                (#[trigger] list@[j]).0@,
            ) by {
                if j < i as int {
                    crate::table::lemma_has_bytes_extends(m_before, t.interned(), list@[j].0@);
                } else {
                    if has_bytes(m_before, list@[j].0@) {
                        crate::table::lemma_has_bytes_extends(m_before, t.interned(), list@[j].0@);
                    } else {
                        assert(t.interned() == m_before.push((list@[j].0@, list@[j].1)));
                        assert(t.interned()[m_before.len() as int].0 == list@[j].0@);
                    }
                }
            }
        }
        i += 1;
    }
    proof {
        assert(pv.subrange(n, n).len() == 0);
        assert(interned_after(t.interned(), pv.subrange(n, n)) == t.interned());
    }
    Ok(())
}

} // verus!
