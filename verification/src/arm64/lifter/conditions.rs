//! Evaluating condition codes on the flags.

use crate::arm64::decode::Operand;
use crate::arm64::ir::{CmpTy, IrOp, Ty, Val};
use crate::arm64::lifter::regs::flag_spec;
use crate::arm64::lifter::{AArch64LifterError, Flag, LState, LifterState};
use vstd::prelude::*;

verus! {

/// Comparison of two flag values.
pub open spec fn cmp1_spec(s: LState, cmp: CmpTy, a: Val, b: Val) -> (LState, Val) {
    (s.emit(IrOp::Icmp(cmp), Ty::I1, seq![a, b]), s.val())
}

/// A flag compared with one: `Eq` tests that it is set, `Ne` that it is clear.
pub open spec fn flag_test_spec(s: LState, flag: Flag, cmp: CmpTy) -> (LState, Val) {
    let (s1, f) = flag_spec(s, flag);
    cmp1_spec(s1, cmp, f, Val::Const(1))
}

/// Two flags compared with each other.
pub open spec fn flags_cmp_spec(s: LState, a: Flag, b: Flag, cmp: CmpTy) -> (LState, Val) {
    let (s1, fa) = flag_spec(s, a);
    let (s2, fb) = flag_spec(s1, b);
    cmp1_spec(s2, cmp, fa, fb)
}

/// What evaluating condition code `cc` appends, and the value that holds the outcome.
pub open spec fn condition_spec(s: LState, cc: u8) -> (LState, Val) {
    let one = Val::Const(1);
    if cc == 0 {
        flag_test_spec(s, Flag::Z, CmpTy::Eq)
    } else if cc == 1 {
        flag_test_spec(s, Flag::Z, CmpTy::Ne)
    } else if cc == 2 {
        flag_test_spec(s, Flag::C, CmpTy::Eq)
    } else if cc == 3 {
        flag_test_spec(s, Flag::C, CmpTy::Ne)
    } else if cc == 4 {
        flag_test_spec(s, Flag::N, CmpTy::Eq)
    } else if cc == 5 {
        flag_test_spec(s, Flag::N, CmpTy::Ne)
    } else if cc == 6 {
        flag_test_spec(s, Flag::V, CmpTy::Eq)
    } else if cc == 7 {
        flag_test_spec(s, Flag::V, CmpTy::Ne)
    } else if cc == 8 {
        let (s1, z) = flag_spec(s, Flag::Z);
        let (s2, c) = flag_spec(s1, Flag::C);
        let (s3, c_set) = cmp1_spec(s2, CmpTy::Eq, c, one);
        let (s4, z_clear) = cmp1_spec(s3, CmpTy::Ne, z, one);
        (s4.emit(IrOp::And, Ty::I1, seq![c_set, z_clear]), s4.val())
    } else if cc == 9 {
        let (s1, z) = flag_spec(s, Flag::Z);
        let (s2, c) = flag_spec(s1, Flag::C);
        let (s3, c_clear) = cmp1_spec(s2, CmpTy::Ne, c, one);
        let (s4, z_set) = cmp1_spec(s3, CmpTy::Eq, z, one);
        (s4.emit(IrOp::Or, Ty::I1, seq![c_clear, z_set]), s4.val())
    } else if cc == 10 {
        flags_cmp_spec(s, Flag::N, Flag::V, CmpTy::Eq)
    } else if cc == 11 {
        flags_cmp_spec(s, Flag::N, Flag::V, CmpTy::Ne)
    } else if cc == 12 {
        let (s1, z) = flag_spec(s, Flag::Z);
        let (s2, n) = flag_spec(s1, Flag::N);
        let (s3, v) = flag_spec(s2, Flag::V);
        let (s4, z_clear) = cmp1_spec(s3, CmpTy::Ne, z, one);
        let (s5, n_eq_v) = cmp1_spec(s4, CmpTy::Eq, n, v);
        (s5.emit(IrOp::And, Ty::I1, seq![z_clear, n_eq_v]), s5.val())
    } else if cc == 13 {
        let (s1, z) = flag_spec(s, Flag::Z);
        let (s2, n) = flag_spec(s1, Flag::N);
        let (s3, v) = flag_spec(s2, Flag::V);
        let (s4, z_set) = cmp1_spec(s3, CmpTy::Eq, z, one);
        let (s5, n_ne_v) = cmp1_spec(s4, CmpTy::Ne, n, v);
        (s5.emit(IrOp::Or, Ty::I1, seq![z_set, n_ne_v]), s5.val())
    } else if cc == 14 {
        (s.emit(IrOp::And, Ty::I1, seq![one, one]), s.val())
    } else {
        cmp1_spec(s, CmpTy::Ne, one, one)
    }
}

/// The error for an operand that is not a condition code.
fn invalid_condition() -> (e: AArch64LifterError)
    ensures
        e matches AArch64LifterError::CustomError(m) && m@ == "Invalid operand for condition code"@,
{
    let m = "Invalid operand for condition code".to_string();
    proof {
        vstd::string::to_string_from_display_ensures_for_str("Invalid operand for condition code", m);
    }
    AArch64LifterError::CustomError(m)
}

impl LifterState {
    /// Compares two flag values.
    fn cmp1(&mut self, cmp: CmpTy, a: Val, b: Val) -> (v: Val)
        requires
            old(self).wf(),
            old(self).st().ok(a),
            old(self).st().ok(b),
        ensures
            final(self).wf(),
            (final(self).st(), v) == cmp1_spec(old(self).st(), cmp, a, b),
            final(self).label_resolver == old(self).label_resolver,
    {
        self.emit2(IrOp::Icmp(cmp), Ty::I1, a, b)
    }

    /// Compares a flag with one.
    fn flag_test(&mut self, flag: Flag, cmp: CmpTy) -> (v: Val)
        requires
            old(self).wf(),
        ensures
            final(self).wf(),
            (final(self).st(), v) == flag_test_spec(old(self).st(), flag, cmp),
            final(self).label_resolver == old(self).label_resolver,
    {
        let f = self.flag_value(flag);
        self.cmp1(cmp, f, Val::Const(1))
    }

    /// Compares two flags.
    fn flags_cmp(&mut self, a: Flag, b: Flag, cmp: CmpTy) -> (v: Val)
        requires
            old(self).wf(),
        ensures
            final(self).wf(),
            (final(self).st(), v) == flags_cmp_spec(old(self).st(), a, b, cmp),
            final(self).label_resolver == old(self).label_resolver,
    {
        let fa = self.flag_value(a);
        let fb = self.flag_value(b);
        self.cmp1(cmp, fa, fb)
    }

    /// Evaluates a condition operand on the flags.  Fails, changing nothing, where the operand
    /// is not a condition code below 16.
    pub fn get_condition(&mut self, operand: Operand) -> (r: Result<Val, AArch64LifterError>)
        requires
            old(self).wf(),
        ensures
            r is Ok <==> (operand matches Operand::ConditionCode(cc) && cc < 16),
            r matches Ok(v) ==> {
                &&& final(self).wf()
                &&& (final(self).st(), v) == condition_spec(old(self).st(), operand->ConditionCode_0)
                &&& final(self).st().ok(v)
                &&& old(self).st().le(final(self).st())
                &&& final(self).label_resolver == old(self).label_resolver
            },
            r matches Err(e) ==> (e matches AArch64LifterError::CustomError(m) && m@
                == "Invalid operand for condition code"@) && *final(self) == *old(self),
    {
        match operand {
            Operand::ConditionCode(cc) => {
                if cc < 16 {
                    Ok(self.condition_value(cc))
                } else {
                    Err(invalid_condition())
                }
            },
            _ => Err(invalid_condition()),
        }
    }

    /// Evaluates condition code `cc` (below 16) on the flags.
    pub fn condition_value(&mut self, cc: u8) -> (v: Val)
        requires
            old(self).wf(),
            cc < 16,
        ensures
            final(self).wf(),
            (final(self).st(), v) == condition_spec(old(self).st(), cc),
            final(self).st().ok(v),
            old(self).st().le(final(self).st()),
            final(self).label_resolver == old(self).label_resolver,
    {
        let one = Val::Const(1);
        if cc == 0 {
            // EQ
            self.flag_test(Flag::Z, CmpTy::Eq)
        } else if cc == 1 {
            // NE
            self.flag_test(Flag::Z, CmpTy::Ne)
        } else if cc == 2 {
            // CS
            self.flag_test(Flag::C, CmpTy::Eq)
        } else if cc == 3 {
            // CC
            self.flag_test(Flag::C, CmpTy::Ne)
        } else if cc == 4 {
            // MI
            self.flag_test(Flag::N, CmpTy::Eq)
        } else if cc == 5 {
            // PL
            self.flag_test(Flag::N, CmpTy::Ne)
        } else if cc == 6 {
            // VS
            self.flag_test(Flag::V, CmpTy::Eq)
        } else if cc == 7 {
            // VC
            self.flag_test(Flag::V, CmpTy::Ne)
        } else if cc == 8 {
            // HI
            let z = self.flag_value(Flag::Z);
            let c = self.flag_value(Flag::C);
            let c_is_true = self.cmp1(CmpTy::Eq, c, one);
            let z_is_false = self.cmp1(CmpTy::Ne, z, one);
            self.emit2(IrOp::And, Ty::I1, c_is_true, z_is_false)
        } else if cc == 9 {
            // LS
            let z = self.flag_value(Flag::Z);
            let c = self.flag_value(Flag::C);
            let c_is_false = self.cmp1(CmpTy::Ne, c, one);
            let z_is_true = self.cmp1(CmpTy::Eq, z, one);
            self.emit2(IrOp::Or, Ty::I1, c_is_false, z_is_true)
        } else if cc == 10 {
            // GE
            self.flags_cmp(Flag::N, Flag::V, CmpTy::Eq)
        } else if cc == 11 {
            // LT
            self.flags_cmp(Flag::N, Flag::V, CmpTy::Ne)
        } else if cc == 12 {
            // GT
            let z = self.flag_value(Flag::Z);
            let n = self.flag_value(Flag::N);
            let v = self.flag_value(Flag::V);
            let z_is_false = self.cmp1(CmpTy::Ne, z, one);
            let n_eq_v = self.cmp1(CmpTy::Eq, n, v);
            self.emit2(IrOp::And, Ty::I1, z_is_false, n_eq_v)
        } else if cc == 13 {
            // LE
            let z = self.flag_value(Flag::Z);
            let n = self.flag_value(Flag::N);
            let v = self.flag_value(Flag::V);
            let z_is_true = self.cmp1(CmpTy::Eq, z, one);
            let n_neq_v = self.cmp1(CmpTy::Ne, n, v);
            self.emit2(IrOp::Or, Ty::I1, z_is_true, n_neq_v)
        } else if cc == 14 {
            // AL
            self.emit2(IrOp::And, Ty::I1, one, one)
        } else {
            // NV
            self.cmp1(CmpTy::Ne, one, one)
        }
    }
}

} // verus!
