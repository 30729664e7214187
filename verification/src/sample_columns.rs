//! Two small column taxonomies exercising the pipeline end to end: one
//! whose values come from parsing input tokens, and one whose per-variant
//! computation hooks are dispatched to fixed values.
//!
//! They double as the reference implementations of [`ColumnMetadata`] that
//! the crate's tests drive the scheduler and input processor with.

use vstd::prelude::*;
use crate::column_metadata::ColumnMetadata;
use crate::mpc_metric_dtype::{opt_view, DTypeView, MPCMetricDType};
use crate::row::{rows_view, Row};
use crate::text::{parse_i64, spec_parse_i64, str_eq};

verus! {

/// A six-column taxonomy with a diamond of dependencies; every column reads
/// a decimal 64-bit integer from its input token, and defines no row or
/// aggregate computation.
#[derive(Clone, Copy, Debug, PartialEq, Eq, Structural, Hash)]
pub enum TestEnum {
    Variant1,
    Variant2,
    Variant3,
    Variant4,
    Variant5,
    Variant6,
}

impl ColumnMetadata for TestEnum {
    open spec fn spec_name(&self) -> Seq<char> {
        match *self {
            TestEnum::Variant1 => "Variant1"@,
            TestEnum::Variant2 => "Variant2"@,
            TestEnum::Variant3 => "Variant3"@,
            TestEnum::Variant4 => "Variant4"@,
            TestEnum::Variant5 => "Variant5"@,
            TestEnum::Variant6 => "Variant6"@,
        }
    }

    open spec fn spec_dependencies(&self) -> Seq<TestEnum> {
        match *self {
            TestEnum::Variant1 => seq![],
            TestEnum::Variant2 => seq![],
            TestEnum::Variant3 => seq![TestEnum::Variant1],
            TestEnum::Variant4 => seq![TestEnum::Variant1],
            TestEnum::Variant5 => seq![TestEnum::Variant3, TestEnum::Variant4],
            TestEnum::Variant6 => seq![TestEnum::Variant2, TestEnum::Variant3],
        }
    }

    open spec fn spec_from_str(s: Seq<char>) -> Option<TestEnum> {
        if s == "Variant1"@ {
            Some(TestEnum::Variant1)
        } else if s == "Variant2"@ {
            Some(TestEnum::Variant2)
        } else if s == "Variant3"@ {
            Some(TestEnum::Variant3)
        } else if s == "Variant4"@ {
            Some(TestEnum::Variant4)
        } else if s == "Variant5"@ {
            Some(TestEnum::Variant5)
        } else if s == "Variant6"@ {
            Some(TestEnum::Variant6)
        } else {
            None
        }
    }

    open spec fn spec_from_input(&self, input: Seq<char>) -> Option<DTypeView> {
        match spec_parse_i64(input) {
            Some(v) => Some(DTypeView::Int64(v)),
            None => None,
        }
    }

    open spec fn spec_from_row(&self, r: Map<TestEnum, DTypeView>) -> Option<DTypeView> {
        None
    }

    open spec fn spec_aggregate(&self, rows: Seq<Map<TestEnum, DTypeView>>) -> Option<DTypeView> {
        None
    }

    fn name(&self) -> (r: &'static str) {
        match *self {
            TestEnum::Variant1 => "Variant1",
            TestEnum::Variant2 => "Variant2",
            TestEnum::Variant3 => "Variant3",
            TestEnum::Variant4 => "Variant4",
            TestEnum::Variant5 => "Variant5",
            TestEnum::Variant6 => "Variant6",
        }
    }

    fn dependencies(&self) -> (r: Vec<TestEnum>) {
        match *self {
            TestEnum::Variant1 => Vec::new(),
            TestEnum::Variant2 => Vec::new(),
            TestEnum::Variant3 => {
                let mut v: Vec<TestEnum> = Vec::new();
                v.push(TestEnum::Variant1);
                proof {
                    assert(v@ =~= self.spec_dependencies());
                }
                v
            },
            TestEnum::Variant4 => {
                let mut v: Vec<TestEnum> = Vec::new();
                v.push(TestEnum::Variant1);
                proof {
                    assert(v@ =~= self.spec_dependencies());
                }
                v
            },
            TestEnum::Variant5 => {
                let mut v: Vec<TestEnum> = Vec::new();
                v.push(TestEnum::Variant3);
                v.push(TestEnum::Variant4);
                proof {
                    assert(v@ =~= self.spec_dependencies());
                }
                v
            },
            TestEnum::Variant6 => {
                let mut v: Vec<TestEnum> = Vec::new();
                v.push(TestEnum::Variant2);
                v.push(TestEnum::Variant3);
                proof {
                    assert(v@ =~= self.spec_dependencies());
                }
                v
            },
        }
    }

    fn eq_col(&self, other: &TestEnum) -> (r: bool) {
        *self == *other
    }

    fn from_str(s: &str) -> (r: Result<TestEnum, ()>) {
        if str_eq(s, "Variant1") {
            Ok(TestEnum::Variant1)
        } else if str_eq(s, "Variant2") {
            Ok(TestEnum::Variant2)
        } else if str_eq(s, "Variant3") {
            Ok(TestEnum::Variant3)
        } else if str_eq(s, "Variant4") {
            Ok(TestEnum::Variant4)
        } else if str_eq(s, "Variant5") {
            Ok(TestEnum::Variant5)
        } else if str_eq(s, "Variant6") {
            Ok(TestEnum::Variant6)
        } else {
            Err(())
        }
    }

    fn from_input(&self, input: &str) -> (r: Option<MPCMetricDType>) {
        match parse_i64(input) {
            Some(v) => Some(MPCMetricDType::MPCInt64(v)),
            None => None,
        }
    }

    fn from_row(&self, r: &Row<TestEnum>) -> (v: Option<MPCMetricDType>) {
        None
    }

    fn aggregate(&self, rows: &Vec<Row<TestEnum>>) -> (v: Option<MPCMetricDType>) {
        None
    }
}

/// A two-column taxonomy whose hooks dispatch per variant to fixed values,
/// standing in for columns that carry their own computation units.
#[derive(Clone, Copy, Debug, PartialEq, Eq, Structural, Hash)]
pub enum TestEnumWithAuto {
    Variant1,
    Variant2,
}

impl ColumnMetadata for TestEnumWithAuto {
    open spec fn spec_name(&self) -> Seq<char> {
        match *self {
            TestEnumWithAuto::Variant1 => "Variant1"@,
            TestEnumWithAuto::Variant2 => "Variant2"@,
        }
    }

    open spec fn spec_dependencies(&self) -> Seq<TestEnumWithAuto> {
        match *self {
            TestEnumWithAuto::Variant1 => seq![],
            TestEnumWithAuto::Variant2 => seq![TestEnumWithAuto::Variant1],
        }
    }

    open spec fn spec_from_str(s: Seq<char>) -> Option<TestEnumWithAuto> {
        if s == "Variant1"@ {
            Some(TestEnumWithAuto::Variant1)
        } else if s == "Variant2"@ {
            Some(TestEnumWithAuto::Variant2)
        } else {
            None
        }
    }

    open spec fn spec_from_input(&self, input: Seq<char>) -> Option<DTypeView> {
        match *self {
            TestEnumWithAuto::Variant1 => Some(DTypeView::Int64(2)),
            TestEnumWithAuto::Variant2 => Some(DTypeView::Int64(5)),
        }
    }

    open spec fn spec_from_row(&self, r: Map<TestEnumWithAuto, DTypeView>) -> Option<DTypeView> {
        match *self {
            TestEnumWithAuto::Variant1 => Some(DTypeView::Int64(1)),
            TestEnumWithAuto::Variant2 => Some(DTypeView::Int64(4)),
        }
    }

    open spec fn spec_aggregate(&self, rows: Seq<Map<TestEnumWithAuto, DTypeView>>) -> Option<
        DTypeView,
    > {
        match *self {
            TestEnumWithAuto::Variant1 => Some(DTypeView::Int64(3)),
            TestEnumWithAuto::Variant2 => Some(DTypeView::Int64(6)),
        }
    }

    fn name(&self) -> (r: &'static str) {
        match *self {
            TestEnumWithAuto::Variant1 => "Variant1",
            TestEnumWithAuto::Variant2 => "Variant2",
        }
    }

    fn dependencies(&self) -> (r: Vec<TestEnumWithAuto>) {
        match *self {
            TestEnumWithAuto::Variant1 => Vec::new(),
            TestEnumWithAuto::Variant2 => {
                let mut v: Vec<TestEnumWithAuto> = Vec::new();
                v.push(TestEnumWithAuto::Variant1);
                proof {
                    assert(v@ =~= self.spec_dependencies());
                }
                v
            },
        }
    }

    fn eq_col(&self, other: &TestEnumWithAuto) -> (r: bool) {
        *self == *other
    }

    fn from_str(s: &str) -> (r: Result<TestEnumWithAuto, ()>) {
        if str_eq(s, "Variant1") {
            Ok(TestEnumWithAuto::Variant1)
        } else if str_eq(s, "Variant2") {
            Ok(TestEnumWithAuto::Variant2)
        } else {
            Err(())
        }
    }

    fn from_input(&self, input: &str) -> (r: Option<MPCMetricDType>) {
        match *self {
            TestEnumWithAuto::Variant1 => Some(MPCMetricDType::MPCInt64(2)),
            TestEnumWithAuto::Variant2 => Some(MPCMetricDType::MPCInt64(5)),
        }
    }

    fn from_row(&self, r: &Row<TestEnumWithAuto>) -> (v: Option<MPCMetricDType>) {
        match *self {
            TestEnumWithAuto::Variant1 => Some(MPCMetricDType::MPCInt64(1)),
            TestEnumWithAuto::Variant2 => Some(MPCMetricDType::MPCInt64(4)),
        }
    }

    fn aggregate(&self, rows: &Vec<Row<TestEnumWithAuto>>) -> (v: Option<MPCMetricDType>) {
        match *self {
            TestEnumWithAuto::Variant1 => Some(MPCMetricDType::MPCInt64(3)),
            TestEnumWithAuto::Variant2 => Some(MPCMetricDType::MPCInt64(6)),
        }
    }
}

/// A two-column taxonomy whose columns depend on each other: no evaluation
/// order can satisfy it, so building a scheduler over it must fail.
#[derive(Clone, Copy, Debug, PartialEq, Eq, Structural, Hash)]
pub enum TestEnumCyclic {
    VariantA,
    VariantB,
}

impl ColumnMetadata for TestEnumCyclic {
    open spec fn spec_name(&self) -> Seq<char> {
        match *self {
            TestEnumCyclic::VariantA => "VariantA"@,
            TestEnumCyclic::VariantB => "VariantB"@,
        }
    }

    open spec fn spec_dependencies(&self) -> Seq<TestEnumCyclic> {
        match *self {
            TestEnumCyclic::VariantA => seq![TestEnumCyclic::VariantB],
            TestEnumCyclic::VariantB => seq![TestEnumCyclic::VariantA],
        }
    }

    open spec fn spec_from_str(s: Seq<char>) -> Option<TestEnumCyclic> {
        if s == "VariantA"@ {
            Some(TestEnumCyclic::VariantA)
        } else if s == "VariantB"@ {
            Some(TestEnumCyclic::VariantB)
        } else {
            None
        }
    }

    open spec fn spec_from_input(&self, input: Seq<char>) -> Option<DTypeView> {
        None
    }

    open spec fn spec_from_row(&self, r: Map<TestEnumCyclic, DTypeView>) -> Option<DTypeView> {
        None
    }

    open spec fn spec_aggregate(&self, rows: Seq<Map<TestEnumCyclic, DTypeView>>) -> Option<
        DTypeView,
    > {
        None
    }

    fn name(&self) -> (r: &'static str) {
        match *self {
            TestEnumCyclic::VariantA => "VariantA",
            TestEnumCyclic::VariantB => "VariantB",
        }
    }

    fn dependencies(&self) -> (r: Vec<TestEnumCyclic>) {
        match *self {
            TestEnumCyclic::VariantA => {
                let mut v: Vec<TestEnumCyclic> = Vec::new();
                v.push(TestEnumCyclic::VariantB);
                proof {
                    assert(v@ =~= self.spec_dependencies());
                }
                v
            },
            TestEnumCyclic::VariantB => {
                let mut v: Vec<TestEnumCyclic> = Vec::new();
                v.push(TestEnumCyclic::VariantA);
                proof {
                    assert(v@ =~= self.spec_dependencies());
                }
                v
            },
        }
    }

    fn eq_col(&self, other: &TestEnumCyclic) -> (r: bool) {
        *self == *other
    }

    fn from_str(s: &str) -> (r: Result<TestEnumCyclic, ()>) {
        if str_eq(s, "VariantA") {
            Ok(TestEnumCyclic::VariantA)
        } else if str_eq(s, "VariantB") {
            Ok(TestEnumCyclic::VariantB)
        } else {
            Err(())
        }
    }

    fn from_input(&self, input: &str) -> (r: Option<MPCMetricDType>) {
        None
    }

    fn from_row(&self, r: &Row<TestEnumCyclic>) -> (v: Option<MPCMetricDType>) {
        None
    }

    fn aggregate(&self, rows: &Vec<Row<TestEnumCyclic>>) -> (v: Option<MPCMetricDType>) {
        None
    }
}

/// Round trip: for every column of this taxonomy, converting the canonical
/// decimal string of a value yields exactly that value, so revealing what
/// `from_input` produced gives the original back.
pub proof fn lemma_from_input_roundtrip(c: TestEnum, x: i64)
    ensures
        c.spec_from_input(crate::text::dec_str_i64(x as int)) == Some(DTypeView::Int64(x)),
{
    crate::text::lemma_parse_i64_roundtrip(x);
}

} // verus!
