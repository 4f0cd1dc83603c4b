use vstd::prelude::*;

verus! {

/// An arithmetic operation of the calculator.
#[derive(PartialEq, Eq, Structural, Clone, Copy, Debug)]
pub enum Operation {
    Add,
    Subtract,
    Multiply,
    Divide,
}

/// What the calculator does with its parameters: compute, or answer with an
/// error text.
pub enum CalcPlan {
    Compute(Operation),
    Fail(String),
}

pub open spec fn invalid_parameters_text() -> Seq<char> {
    "Error: Invalid parameters for calculation"@
}

pub open spec fn division_by_zero_text() -> Seq<char> {
    "Error: Division by zero"@
}

pub open spec fn unknown_operation_text(op: Seq<char>) -> Seq<char> {
    "Error: Unknown operation '"@ + op + "'"@
}

/// Text that a handler returns to report a failure.
pub open spec fn is_error_text(s: Seq<char>) -> bool {
    s.len() >= 6 && s.subrange(0, 6) == "Error:"@
}

/// Whether `op` is the one character `c`.
pub open spec fn is_symbol(op: Seq<char>, c: char) -> bool {
    op.len() == 1 && op[0] == c
}

/// The operation that a symbol names, if any.
pub open spec fn operation_of(op: Seq<char>) -> Option<Operation> {
    if is_symbol(op, '+') {
        Some(Operation::Add)
    } else if is_symbol(op, '-') {
        Some(Operation::Subtract)
    } else if is_symbol(op, '*') {
        Some(Operation::Multiply)
    } else if is_symbol(op, '/') {
        Some(Operation::Divide)
    } else {
        None
    }
}

/// The plan over plain values.
pub enum PlanView {
    Compute(Operation),
    Fail(Seq<char>),
}

impl View for CalcPlan {
    type V = PlanView;

    open spec fn view(&self) -> PlanView {
        match self {
            CalcPlan::Compute(o) => PlanView::Compute(*o),
            CalcPlan::Fail(t) => PlanView::Fail(t@),
        }
    }
}

/// The calculator's decision, given which numbers are present, whether the
/// divisor is zero, and the operation symbol.
pub open spec fn plan_spec(a_present: bool, b_present: bool, b_is_zero: bool, op: Option<Seq<char>>) -> PlanView {
    if !a_present || !b_present || op is None {
        PlanView::Fail(invalid_parameters_text())
    } else {
        match operation_of(op->0) {
            Some(Operation::Divide) => if b_is_zero {
                PlanView::Fail(division_by_zero_text())
            } else {
                PlanView::Compute(Operation::Divide)
            },
            Some(o) => PlanView::Compute(o),
            None => PlanView::Fail(unknown_operation_text(op->0)),
        }
    }
}

pub open spec fn symbol_view(op: Option<&str>) -> Option<Seq<char>> {
    match op {
        Some(s) => Some(s@),
        None => None,
    }
}

fn single_char(s: &str, c: char) -> (r: bool)
    ensures
        r == is_symbol(s@, c),
{
    s.unicode_len() == 1 && s.get_char(0) == c
}

/// Decides what the calculator does: every failure is answered with a text
/// that starts with `Error:`, never with a fault.
pub fn plan_calculation(a_present: bool, b_present: bool, b_is_zero: bool, op: Option<&str>) -> (r: CalcPlan)
    ensures
        r@ == plan_spec(a_present, b_present, b_is_zero, symbol_view(op)),
        r matches CalcPlan::Fail(t) ==> is_error_text(t@),
{
    proof {
        reveal_strlit("Error:");
        reveal_strlit("Error: Invalid parameters for calculation");
        reveal_strlit("Error: Division by zero");
        reveal_strlit("Error: Unknown operation '");
        reveal_strlit("'");
    }
    let op = match op {
        Some(o) => {
            if a_present && b_present {
                o
            } else {
                let t = String::from_str("Error: Invalid parameters for calculation");
                assert(t@.subrange(0, 6) =~= "Error:"@);
                return CalcPlan::Fail(t);
            }
        },
        None => {
            let t = String::from_str("Error: Invalid parameters for calculation");
            assert(t@.subrange(0, 6) =~= "Error:"@);
            return CalcPlan::Fail(t);
        },
    };
    if single_char(op, '+') {
        CalcPlan::Compute(Operation::Add)
    } else if single_char(op, '-') {
        CalcPlan::Compute(Operation::Subtract)
    } else if single_char(op, '*') {
        CalcPlan::Compute(Operation::Multiply)
    } else if single_char(op, '/') {
        if b_is_zero {
            let t = String::from_str("Error: Division by zero");
            assert(t@.subrange(0, 6) =~= "Error:"@);
            CalcPlan::Fail(t)
        } else {
            CalcPlan::Compute(Operation::Divide)
        }
    } else {
        let t = String::from_str("Error: Unknown operation '").concat(op).concat("'");
        assert(t@.subrange(0, 6) =~= "Error:"@);
        CalcPlan::Fail(t)
    }
}

} // verus!
