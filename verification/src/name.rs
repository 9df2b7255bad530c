use vstd::prelude::*;

verus! {

/// Identifier for a function, basic block, parameter, or instruction
/// result: either an explicit textual name from the source module or a
/// synthetic sequence number assigned during decoding. A string name and
/// a numeric name with the same textual form are distinct.
#[derive(Debug)]
pub enum Name {
    /// An explicit name carried over from the source module.
    Name(String),
    /// A synthetic sequence number assigned to an unnamed entity.
    Number(usize),
}

/// Mathematical value of a `Name`: the kind tag together with the
/// character sequence or the number.
#[verifier::ext_equal]
pub enum NameV {
    Name(Seq<char>),
    Number(nat),
}

impl View for Name {
    type V = NameV;

    open spec fn view(&self) -> NameV {
        match self {
            Name::Name(s) => NameV::Name(s@),
            Name::Number(n) => NameV::Number(*n as nat),
        }
    }
}

impl Name {
    /// What `name_or_num` returns for an explicit name `s` when the
    /// counter stands at `ctr`.
    pub open spec fn spec_name_or_num(s: Seq<char>, ctr: nat) -> NameV {
        if s.len() == 0 {
            NameV::Number(ctr)
        } else {
            NameV::Name(s)
        }
    }

    /// The counter value after assigning a name to an entity whose
    /// explicit name is `s`: unnamed entities consume one number.
    pub open spec fn spec_ctr_after(s: Seq<char>, ctr: nat) -> nat {
        if s.len() == 0 {
            ctr + 1
        } else {
            ctr
        }
    }

    /// An explicit name if `name` is non-empty; otherwise the next
    /// synthetic number, advancing the counter.
    pub fn name_or_num(name: String, ctr: &mut usize) -> (r: Name)
        requires
            name@.len() == 0 ==> *old(ctr) < usize::MAX,
        ensures
            r@ == Name::spec_name_or_num(name@, *old(ctr) as nat),
            *final(ctr) == Name::spec_ctr_after(name@, *old(ctr) as nat),
    {
        if name.as_str().is_empty() {
            let n = *ctr;
            *ctr = *ctr + 1;
            Name::Number(n)
        } else {
            Name::Name(name)
        }
    }
}

impl Clone for Name {
    fn clone(&self) -> (r: Self)
        ensures
            r@ == self@,
    {
        match self {
            Name::Name(s) => Name::Name(s.clone()),
            Name::Number(n) => Name::Number(*n),
        }
    }
}

impl PartialEq for Name {
    fn eq(&self, other: &Self) -> (r: bool)
    {
        match (self, other) {
            (Name::Name(a), Name::Name(b)) => *a == *b,
            (Name::Number(a), Name::Number(b)) => *a == *b,
            _ => false,
        }
    }
}

impl vstd::std_specs::cmp::PartialEqSpecImpl for Name {
    open spec fn obeys_eq_spec() -> bool {
        true
    }

    open spec fn eq_spec(&self, other: &Name) -> bool {
        self@ == other@
    }
}

impl Eq for Name {}

} // verus!
