//! What a program needs from the runtime library.

use vstd::prelude::*;

use crate::mir::ops::RuntimeOp;
use crate::text::push_str;

verus! {

/// Which parts of the runtime library a program uses.
#[derive(Debug, Clone, Copy, PartialEq, Eq, Structural)]
pub struct RuntimeRequirements {
    pub needs_runtime: bool,
    pub needs_string: bool,
    pub needs_array: bool,
    pub needs_map: bool,
    pub needs_result: bool,
    pub needs_promise: bool,
    pub needs_scheduler: bool,
    pub needs_host_io: bool,
    pub needs_console: bool,
    pub needs_math: bool,
}

/// Requirements with nothing needed.
pub open spec fn no_requirements() -> RuntimeRequirements {
    RuntimeRequirements {
        needs_runtime: false,
        needs_string: false,
        needs_array: false,
        needs_map: false,
        needs_result: false,
        needs_promise: false,
        needs_scheduler: false,
        needs_host_io: false,
        needs_console: false,
        needs_math: false,
    }
}

/// The requirements after using `op`: the runtime itself and the parts
/// that `op` belongs to are needed, and nothing is dropped.
pub open spec fn required(r: RuntimeRequirements, op: RuntimeOp) -> RuntimeRequirements {
    let r = RuntimeRequirements { needs_runtime: true, ..r };
    match op {
        RuntimeOp::StringConcat | RuntimeOp::StringEquals | RuntimeOp::StringLen =>
            RuntimeRequirements { needs_string: true, ..r },
        RuntimeOp::ArrayCreate | RuntimeOp::ArrayGet | RuntimeOp::ArraySet | RuntimeOp::ArrayLen =>
            RuntimeRequirements { needs_array: true, ..r },
        RuntimeOp::MapGet | RuntimeOp::MapSet => RuntimeRequirements { needs_map: true, ..r },
        RuntimeOp::ResultOk | RuntimeOp::ResultErr | RuntimeOp::ResultUnwrapOk =>
            RuntimeRequirements { needs_result: true, ..r },
        RuntimeOp::PromiseCreate | RuntimeOp::PromiseResolve =>
            RuntimeRequirements { needs_promise: true, needs_scheduler: true, ..r },
        RuntimeOp::HostConsoleLog => RuntimeRequirements { needs_host_io: true, needs_console: true, ..r },
        RuntimeOp::MathSqrt => RuntimeRequirements { needs_math: true, ..r },
    }
}

/// Whether the `k`-th part, in the fixed order of the fields, is needed.
pub open spec fn needs_part(r: RuntimeRequirements, k: int) -> bool {
    if k == 0 { r.needs_runtime }
    else if k == 1 { r.needs_string }
    else if k == 2 { r.needs_array }
    else if k == 3 { r.needs_map }
    else if k == 4 { r.needs_result }
    else if k == 5 { r.needs_promise }
    else if k == 6 { r.needs_scheduler }
    else if k == 7 { r.needs_host_io }
    else if k == 8 { r.needs_console }
    else { r.needs_math }
}

/// The name of the `k`-th part.
pub open spec fn part_name(k: int) -> Seq<char> {
    if k == 0 { "runtime"@ }
    else if k == 1 { "string"@ }
    else if k == 2 { "array"@ }
    else if k == 3 { "map"@ }
    else if k == 4 { "result"@ }
    else if k == 5 { "promise"@ }
    else if k == 6 { "scheduler"@ }
    else if k == 7 { "host_io"@ }
    else if k == 8 { "console"@ }
    else { "math"@ }
}

/// The names of the needed parts among the first `k`, in order.
pub open spec fn names_upto(r: RuntimeRequirements, k: int) -> Seq<Seq<char>>
    decreases k,
{
    if k <= 0 {
        Seq::empty()
    } else if needs_part(r, k - 1) {
        names_upto(r, k - 1).push(part_name(k - 1))
    } else {
        names_upto(r, k - 1)
    }
}

/// The names of the needed parts, in the order of the fields.
pub open spec fn requirement_names(r: RuntimeRequirements) -> Seq<Seq<char>> {
    names_upto(r, 10)
}

/// The texts joined with `", "` between them.
pub open spec fn joined(parts: Seq<Seq<char>>) -> Seq<char>
    decreases parts.len(),
{
    if parts.len() == 0 {
        Seq::empty()
    } else if parts.len() == 1 {
        parts[0]
    } else {
        joined(parts.drop_last()) + ", "@ + parts.last()
    }
}

/// How requirements are written: `RuntimeRequirements(none)` when nothing
/// is needed, else the names of the needed parts.
pub open spec fn requirements_text(r: RuntimeRequirements) -> Seq<char> {
    if requirement_names(r).len() == 0 {
        "RuntimeRequirements(none)"@
    } else {
        "RuntimeRequirements("@ + joined(requirement_names(r)) + ")"@
    }
}

impl Default for RuntimeRequirements {
    fn default() -> (r: Self)
        ensures
            r == no_requirements(),
    {
        RuntimeRequirements {
            needs_runtime: false,
            needs_string: false,
            needs_array: false,
            needs_map: false,
            needs_result: false,
            needs_promise: false,
            needs_scheduler: false,
            needs_host_io: false,
            needs_console: false,
            needs_math: false,
        }
    }
}

/// Appends `name` to the list being written, with a separator unless it
/// is the first.
fn add_part(s: &mut String, first: bool, parts: Ghost<Seq<Seq<char>>>, prefix: Ghost<Seq<char>>, name: &str)
    requires
        old(s)@ == prefix@ + joined(parts@),
        first == (parts@.len() == 0),
    ensures
        final(s)@ == prefix@ + joined(parts@.push(name@)),
{
    let ghost p = parts@.push(name@);
    proof {
        assert(p.drop_last() =~= parts@);
    }
    if !first {
        push_str(s, ", ");
    }
    push_str(s, name);
    proof {
        if parts@.len() == 0 {
            assert(joined(parts@) =~= Seq::<char>::empty());
        }
        assert(final(s)@ =~= prefix@ + joined(p));
    }
}

impl RuntimeRequirements {
    /// Records that `op` is used.
    pub fn require(&mut self, op: RuntimeOp)
        ensures
            *final(self) == required(*old(self), op),
    {
        self.needs_runtime = true;
        match op {
            RuntimeOp::StringConcat | RuntimeOp::StringEquals | RuntimeOp::StringLen => {
                self.needs_string = true;
            },
            RuntimeOp::ArrayCreate | RuntimeOp::ArrayGet | RuntimeOp::ArraySet | RuntimeOp::ArrayLen => {
                self.needs_array = true;
            },
            RuntimeOp::MapGet | RuntimeOp::MapSet => {
                self.needs_map = true;
            },
            RuntimeOp::ResultOk | RuntimeOp::ResultErr | RuntimeOp::ResultUnwrapOk => {
                self.needs_result = true;
            },
            RuntimeOp::PromiseCreate | RuntimeOp::PromiseResolve => {
                self.needs_promise = true;
                self.needs_scheduler = true;
            },
            RuntimeOp::HostConsoleLog => {
                self.needs_host_io = true;
                self.needs_console = true;
            },
            RuntimeOp::MathSqrt => {
                self.needs_math = true;
            },
        }
    }

    /// The requirements as text, such as
    /// `RuntimeRequirements(runtime, string)`.
    pub fn to_string(&self) -> (s: String)
        ensures
            s@ == requirements_text(*self),
    {
        let ghost prefix = "RuntimeRequirements("@;
        let mut s = String::new();
        push_str(&mut s, "RuntimeRequirements(");
        let mut first = true;
        let mut k: usize = 0;
        proof {
            assert(s@ =~= prefix + joined(names_upto(*self, 0)));
        }
        while k < 10
            invariant
                k <= 10,
                s@ == prefix + joined(names_upto(*self, k as int)),
                first == (names_upto(*self, k as int).len() == 0),
            decreases 10 - k,
        {
            if self.part(k) {
                add_part(&mut s, first, Ghost(names_upto(*self, k as int)), Ghost(prefix), part_text(k));
                first = false;
            }
            k = k + 1;
        }
        if first {
            let mut t = String::new();
            push_str(&mut t, "RuntimeRequirements(none)");
            proof {
                assert(t@ =~= "RuntimeRequirements(none)"@);
            }
            t
        } else {
            push_str(&mut s, ")");
            s
        }
    }

    fn part(&self, k: usize) -> (b: bool)
        requires
            k < 10,
        ensures
            b == needs_part(*self, k as int),
    {
        if k == 0 { self.needs_runtime }
        else if k == 1 { self.needs_string }
        else if k == 2 { self.needs_array }
        else if k == 3 { self.needs_map }
        else if k == 4 { self.needs_result }
        else if k == 5 { self.needs_promise }
        else if k == 6 { self.needs_scheduler }
        else if k == 7 { self.needs_host_io }
        else if k == 8 { self.needs_console }
        else { self.needs_math }
    }
}

fn part_text(k: usize) -> (s: &'static str)
    requires
        k < 10,
    ensures
        s@ == part_name(k as int),
{
    if k == 0 { "runtime" }
    else if k == 1 { "string" }
    else if k == 2 { "array" }
    else if k == 3 { "map" }
    else if k == 4 { "result" }
    else if k == 5 { "promise" }
    else if k == 6 { "scheduler" }
    else if k == 7 { "host_io" }
    else if k == 8 { "console" }
    else { "math" }
}

/// Using an operation twice needs no more than using it once.
pub proof fn law_require_idempotent(r: RuntimeRequirements, op: RuntimeOp)
    ensures
        required(required(r, op), op) == required(r, op),
{
}

/// The order in which operations are used does not matter.
pub proof fn law_require_commutes(r: RuntimeRequirements, a: RuntimeOp, b: RuntimeOp)
    ensures
        required(required(r, a), b) == required(required(r, b), a),
{
}

/// Using an operation never drops a part that was needed.
pub proof fn law_require_keeps(r: RuntimeRequirements, op: RuntimeOp)
    ensures
        r.needs_runtime ==> required(r, op).needs_runtime,
        r.needs_string ==> required(r, op).needs_string,
        r.needs_array ==> required(r, op).needs_array,
        r.needs_map ==> required(r, op).needs_map,
        r.needs_result ==> required(r, op).needs_result,
        r.needs_promise ==> required(r, op).needs_promise,
        r.needs_scheduler ==> required(r, op).needs_scheduler,
        r.needs_host_io ==> required(r, op).needs_host_io,
        r.needs_console ==> required(r, op).needs_console,
        r.needs_math ==> required(r, op).needs_math,
        required(r, op).needs_runtime,
{
}

} // verus!
