//! Renderer configuration: the choice of integrator and the thread count.

use vstd::prelude::*;

verus! {

#[derive(Clone, Copy, PartialEq, Eq, Structural, Debug)]
pub enum IntegratorType {
    PathTrace,
    PathTraceWithNee,
    BidirectionalPathTrace,
    LightTrace,
}

#[derive(Clone, Copy)]
pub struct RenderConfig {
    pub integrator: IntegratorType,
    pub nthread: usize,
}

/// The integrator selected by a command-line name, if the name is known.
/// Names are byte strings: `bdpt` is [98, 100, 112, 116], `pt` [112, 116],
/// `nee` [110, 101, 101], `lt` [108, 116].
pub open spec fn spec_integrator_from_name(name: Seq<u8>) -> Option<IntegratorType> {
    if name == seq![98u8, 100u8, 112u8, 116u8] {
        Some(IntegratorType::BidirectionalPathTrace)
    } else if name == seq![112u8, 116u8] {
        Some(IntegratorType::PathTrace)
    } else if name == seq![110u8, 101u8, 101u8] {
        Some(IntegratorType::PathTraceWithNee)
    } else if name == seq![108u8, 116u8] {
        Some(IntegratorType::LightTrace)
    } else {
        None
    }
}

/// Maps an integrator name (as bytes) to the integrator it selects:
/// `"pt"`, `"nee"`, `"bdpt"` and `"lt"` are known, everything else is not.
pub fn integrator_from_name(name: &[u8]) -> (r: Option<IntegratorType>)
    ensures
        r == spec_integrator_from_name(name@),
{
    if name.len() == 4 && name[0] == 98u8 && name[1] == 100u8 && name[2] == 112u8 && name[3] == 116u8 {
        proof {
            assert(name@ =~= seq![98u8, 100u8, 112u8, 116u8]);
        }
        Some(IntegratorType::BidirectionalPathTrace)
    } else if name.len() == 2 && name[0] == 112u8 && name[1] == 116u8 {
        proof {
            assert(name@ =~= seq![112u8, 116u8]);
        }
        Some(IntegratorType::PathTrace)
    } else if name.len() == 3 && name[0] == 110u8 && name[1] == 101u8 && name[2] == 101u8 {
        proof {
            assert(name@ =~= seq![110u8, 101u8, 101u8]);
        }
        Some(IntegratorType::PathTraceWithNee)
    } else if name.len() == 2 && name[0] == 108u8 && name[1] == 116u8 {
        proof {
            assert(name@ =~= seq![108u8, 116u8]);
        }
        Some(IntegratorType::LightTrace)
    } else {
        proof {
            assert(name@ != seq![98u8, 100u8, 112u8, 116u8]);
            assert(name@ != seq![112u8, 116u8]);
            assert(name@ != seq![110u8, 101u8, 101u8]);
            assert(name@ != seq![108u8, 116u8]);
        }
        None
    }
}

} // verus!
