//! The arguments of a generated call: the formal names of the called state,
//! the class parameters put back at their indexes, and the values in order.
use vstd::prelude::*;
use vstd::string::*;
use crate::ast::{find_key, key_index, same_text, GenError, Parameter, ResourceDef, StateDeclaration, StateDef, Value, AST};
use crate::context::DSC;
use crate::text::views;
use crate::value::{quoted_param, text_of};

verus! {

/// The first position at or after `i` of a resource called `name`, or the length.
pub open spec fn resource_index_from(rs: Seq<ResourceDef>, name: Seq<char>, i: int) -> int
    decreases rs.len() - i,
{
    if i < 0 || i >= rs.len() {
        rs.len() as int
    } else if rs[i].name@ == name {
        i
    } else {
        resource_index_from(rs, name, i + 1)
    }
}

/// The first position at or after `i` of a state called `name`, or the length.
pub open spec fn state_index_from(ss: Seq<StateDef>, name: Seq<char>, i: int) -> int
    decreases ss.len() - i,
{
    if i < 0 || i >= ss.len() {
        ss.len() as int
    } else if ss[i].name@ == name {
        i
    } else {
        state_index_from(ss, name, i + 1)
    }
}

/// The names of the first `n` parameters.
pub open spec fn names_upto(ps: Seq<Parameter>, n: int) -> Seq<Seq<char>>
    decreases n,
{
    if n <= 0 {
        Seq::empty()
    } else {
        names_upto(ps, n - 1).push(ps[n - 1].name@)
    }
}

/// The formal names of a state: the resource's parameters, then its own.
pub open spec fn formal_names(res: ResourceDef, st: StateDef) -> Seq<Seq<char>> {
    names_upto(res.parameters@, res.parameters@.len() as int) + names_upto(
        st.parameters@,
        st.parameters@.len() as int,
    )
}

/// The first `n` class parameters, each a name and an index; a value that is
/// not a whole number is malformed.
pub open spec fn class_params_upto(fields: Seq<(String, Value)>, n: int) -> Result<Seq<(Seq<char>, nat)>, GenError>
    decreases n,
{
    if n <= 0 {
        Ok(Seq::empty())
    } else {
        match class_params_upto(fields, n - 1) {
            Err(e) => Err(e),
            Ok(before) => match fields[n - 1].1 {
                Value::Number(k) => match k.whole {
                    Some(index) => Ok(before.push((fields[n - 1].0@, index as nat))),
                    None => Err(GenError::MalformedMetadata),
                },
                _ => Err(GenError::MalformedMetadata),
            },
        }
    }
}

/// The class parameters that a state's metadata names: the fields of the
/// struct under `class_parameters`, or none where there is no such struct.
pub open spec fn class_params(metadata: Seq<(String, Value)>) -> Result<Seq<(Seq<char>, nat)>, GenError> {
    let i = key_index(metadata, "class_parameters"@);
    if i < metadata.len() {
        match metadata[i].1 {
            Value::Struct(fields) => class_params_upto(fields@, fields@.len() as int),
            _ => Ok(Seq::empty()),
        }
    } else {
        Ok(Seq::empty())
    }
}

/// Names and indexes of class parameters as sequences and numbers.
pub open spec fn pair_views(pairs: Seq<(String, u64)>) -> Seq<(Seq<char>, nat)> {
    pairs.map_values(|p: (String, u64)| (p.0@, p.1 as nat))
}

/// `x` put into `sorted` behind every pair whose index is not greater.
pub open spec fn placed(sorted: Seq<(Seq<char>, nat)>, x: (Seq<char>, nat)) -> Seq<(Seq<char>, nat)>
    decreases sorted.len(),
{
    if sorted.len() == 0 {
        seq![x]
    } else if sorted.last().1 <= x.1 {
        sorted.push(x)
    } else {
        placed(sorted.drop_last(), x).push(sorted.last())
    }
}

/// The first `n` pairs in ascending order of index, pairs of one index in the
/// order in which they were given.
pub open spec fn sorted_upto(pairs: Seq<(Seq<char>, nat)>, n: int) -> Seq<(Seq<char>, nat)>
    decreases n,
{
    if n <= 0 {
        Seq::empty()
    } else {
        placed(sorted_upto(pairs, n - 1), pairs[n - 1])
    }
}

/// Whether the indexes of `pairs` never go down.
pub open spec fn ascending(pairs: Seq<(Seq<char>, nat)>) -> bool {
    forall|i: int, j: int| 0 <= i <= j < pairs.len() ==> pairs[i].1 <= pairs[j].1
}

/// The names after the first `n` pairs have been inserted, each at its index;
/// an index beyond the list as it then stands is out of range.
pub open spec fn inserted_upto(names: Seq<Seq<char>>, pairs: Seq<(Seq<char>, nat)>, n: int) -> Result<Seq<Seq<char>>, GenError>
    decreases n,
{
    if n <= 0 {
        Ok(names)
    } else {
        match inserted_upto(names, pairs, n - 1) {
            Err(e) => Err(e),
            Ok(cur) => if pairs[n - 1].1 <= cur.len() {
                Ok(cur.insert(pairs[n - 1].1 as int, pairs[n - 1].0))
            } else {
                Err(GenError::OutOfRange)
            },
        }
    }
}

/// The name of the argument at position `i`.
pub open spec fn name_at(names: Seq<Seq<char>>, i: int) -> Seq<char> {
    if 0 <= i < names.len() {
        names[i]
    } else {
        "unnamed"@
    }
}

/// The first `n` arguments, each under its name, joined by single spaces.
pub open spec fn arguments_upto(args: Seq<Value>, names: Seq<Seq<char>>, n: int) -> Result<Seq<char>, GenError>
    decreases n,
{
    if n <= 0 {
        Ok(Seq::empty())
    } else {
        match arguments_upto(args, names, n - 1) {
            Err(e) => Err(e),
            Ok(before) => match quoted_param(args[n - 1], name_at(names, n - 1)) {
                Err(e) => Err(e),
                Ok(t) => Ok(if n == 1 { t } else { before + " "@ + t }),
            },
        }
    }
}

/// The argument list of the call that `sd` declares.
pub open spec fn method_parameters(gc: AST, sd: StateDeclaration) -> Result<Seq<char>, GenError> {
    let ri = resource_index_from(gc.resources@, sd.resource@, 0);
    if ri >= gc.resources@.len() {
        Err(GenError::MissingReference)
    } else {
        let res = gc.resources@[ri];
        let si = state_index_from(res.states@, sd.state@, 0);
        if si >= res.states@.len() {
            Err(GenError::MissingReference)
        } else {
            let st = res.states@[si];
            match class_params(st.metadata@) {
                Err(e) => Err(e),
                Ok(pairs) => {
                    let sorted = sorted_upto(pairs, pairs.len() as int);
                    match inserted_upto(formal_names(res, st), sorted, sorted.len() as int) {
                        Err(e) => Err(e),
                        Ok(names) => {
                            let args = sd.resource_params@ + sd.state_params@;
                            arguments_upto(args, names, args.len() as int)
                        },
                    }
                },
            }
        }
    }
}

/// Placing `x` at `pos` is what `placed` does, where `pos` is the end of the
/// pairs whose index is not greater than that of `x`.
pub proof fn lemma_placed_at(s: Seq<(Seq<char>, nat)>, x: (Seq<char>, nat), pos: int)
    requires
        0 <= pos <= s.len(),
        forall|j: int| pos <= j < s.len() ==> s[j].1 > x.1,
        pos > 0 ==> s[pos - 1].1 <= x.1,
    ensures
        placed(s, x) == s.insert(pos, x),
    decreases s.len(),
{
    if s.len() == 0 {
        assert(s.insert(0, x) =~= seq![x]);
    } else if pos == s.len() {
        assert(s.insert(pos, x) =~= s.push(x));
    } else {
        lemma_placed_at(s.drop_last(), x, pos);
        assert(s.drop_last().insert(pos, x).push(s.last()) =~= s.insert(pos, x));
    }
}

/// Placing a pair keeps an ascending sequence ascending.
pub proof fn lemma_placed_ascending(s: Seq<(Seq<char>, nat)>, x: (Seq<char>, nat))
    requires
        ascending(s),
    ensures
        ascending(placed(s, x)),
        placed(s, x).len() == s.len() + 1,
        forall|i: int| 0 <= i < placed(s, x).len() ==> #[trigger] placed(s, x)[i] == x || s.contains(
            placed(s, x)[i],
        ),
    decreases s.len(),
{
    if s.len() > 0 && s.last().1 > x.1 {
        let front = s.drop_last();
        lemma_placed_ascending(front, x);
        let p = placed(front, x);
        assert forall|i: int, j: int| 0 <= i <= j < p.push(s.last()).len() implies p.push(s.last())[i].1
            <= p.push(s.last())[j].1 by {
            if j == p.len() {
                if i < p.len() {
                    if p[i] != x {
                        assert(front.contains(p[i]));
                        let k = choose|k: int| 0 <= k < front.len() && front[k] == p[i];
                        assert(s[k].1 <= s[s.len() - 1].1);
                    }
                }
            }
        }
        assert forall|i: int| 0 <= i < p.push(s.last()).len() implies #[trigger] p.push(s.last())[i] == x
            || s.contains(p.push(s.last())[i]) by {
            if i < p.len() {
                if p[i] != x {
                    assert(front.contains(p[i]));
                    let k = choose|k: int| 0 <= k < front.len() && front[k] == p[i];
                    assert(s[k] == p[i]);
                }
            } else {
                assert(s[s.len() - 1] == s.last());
            }
        }
    } else if s.len() > 0 {
        assert forall|i: int| 0 <= i < s.push(x).len() implies #[trigger] s.push(x)[i] == x || s.contains(
            s.push(x)[i],
        ) by {
            if i < s.len() {
                assert(s[i] == s.push(x)[i]);
            }
        }
    }
}

/// The sorted pairs are in ascending order of index, and as many as before.
pub proof fn lemma_sorted_ascending(pairs: Seq<(Seq<char>, nat)>, n: int)
    requires
        0 <= n <= pairs.len(),
    ensures
        ascending(sorted_upto(pairs, n)),
        sorted_upto(pairs, n).len() == n,
    decreases n,
{
    if n > 0 {
        lemma_sorted_ascending(pairs, n - 1);
        lemma_placed_ascending(sorted_upto(pairs, n - 1), pairs[n - 1]);
    }
}

/// An index that is out of range stops the insertion for good.
pub proof fn lemma_inserted_error_stays(names: Seq<Seq<char>>, pairs: Seq<(Seq<char>, nat)>, k: int, n: int)
    requires
        0 <= k <= n,
        inserted_upto(names, pairs, k).is_err(),
    ensures
        inserted_upto(names, pairs, n) == inserted_upto(names, pairs, k),
    decreases n - k,
{
    if k < n {
        lemma_inserted_error_stays(names, pairs, k, n - 1);
    }
}

/// A malformed class parameter stops the reading for good.
pub proof fn lemma_class_params_error_stays(fields: Seq<(String, Value)>, k: int, n: int)
    requires
        0 <= k <= n,
        class_params_upto(fields, k).is_err(),
    ensures
        class_params_upto(fields, n) == class_params_upto(fields, k),
    decreases n - k,
{
    if k < n {
        lemma_class_params_error_stays(fields, k, n - 1);
    }
}

/// An argument without a rendering stops the list for good.
pub proof fn lemma_arguments_error_stays(args: Seq<Value>, names: Seq<Seq<char>>, k: int, n: int)
    requires
        0 <= k <= n,
        arguments_upto(args, names, k).is_err(),
    ensures
        arguments_upto(args, names, n) == arguments_upto(args, names, k),
    decreases n - k,
{
    if k < n {
        lemma_arguments_error_stays(args, names, k, n - 1);
    }
}

/// Finds the resource called `name`.
pub fn find_resource(rs: &Vec<ResourceDef>, name: &str) -> (i: usize)
    ensures
        i == resource_index_from(rs@, name@, 0),
        i <= rs.len(),
{
    let mut i: usize = 0;
    while i < rs.len()
        invariant
            i <= rs.len(),
            resource_index_from(rs@, name@, 0) == resource_index_from(rs@, name@, i as int),
        decreases rs.len() - i,
    {
        if same_text(rs[i].name.as_str(), name) {
            return i;
        }
        i = i + 1;
    }
    i
}

/// Finds the state called `name`.
pub fn find_state(ss: &Vec<StateDef>, name: &str) -> (i: usize)
    ensures
        i == state_index_from(ss@, name@, 0),
        i <= ss.len(),
{
    let mut i: usize = 0;
    while i < ss.len()
        invariant
            i <= ss.len(),
            state_index_from(ss@, name@, 0) == state_index_from(ss@, name@, i as int),
        decreases ss.len() - i,
    {
        if same_text(ss[i].name.as_str(), name) {
            return i;
        }
        i = i + 1;
    }
    i
}

/// Reads the class parameters out of a state's metadata.
#[verifier::loop_isolation(false)]
pub fn read_class_params(metadata: &Vec<(String, Value)>) -> (r: Result<Vec<(String, u64)>, GenError>)
    ensures
        match r {
            Ok(v) => class_params(metadata@) == Ok::<Seq<(Seq<char>, nat)>, GenError>(pair_views(v@)),
            Err(e) => class_params(metadata@) == Err::<Seq<(Seq<char>, nat)>, GenError>(e),
        },
{
    let mut out: Vec<(String, u64)> = Vec::new();
    assert(pair_views(out@) =~= Seq::empty());
    let at = find_key(metadata, "class_parameters");
    if at >= metadata.len() {
        return Ok(out);
    }
    match &metadata[at].1 {
        Value::Struct(fields) => {
            let mut i: usize = 0;
            while i < fields.len()
                invariant
                    i <= fields.len(),
                    class_params_upto(fields@, i as int) == Ok::<Seq<(Seq<char>, nat)>, GenError>(
                        pair_views(out@),
                    ),
                decreases fields.len() - i,
            {
                match &fields[i].1 {
                    Value::Number(k) => {
                        match k.whole {
                            Some(index) => {
                                let ghost before = pair_views(out@);
                                out.push((fields[i].0.clone(), index));
                                assert(pair_views(out@) =~= before.push((fields[i as int].0@, index as nat)));
                            },
                            None => {
                                proof {
                                    lemma_class_params_error_stays(fields@, i + 1, fields@.len() as int);
                                }
                                return Err(GenError::MalformedMetadata);
                            },
                        }
                    },
                    _ => {
                        proof {
                            lemma_class_params_error_stays(fields@, i + 1, fields@.len() as int);
                        }
                        return Err(GenError::MalformedMetadata);
                    },
                }
                i = i + 1;
            }
            Ok(out)
        },
        _ => Ok(out),
    }
}

/// Sorts the pairs by index; pairs of one index keep their order.
pub fn sort_by_index(pairs: Vec<(String, u64)>) -> (out: Vec<(String, u64)>)
    ensures
        pair_views(out@) == sorted_upto(pair_views(pairs@), pairs@.len() as int),
        ascending(pair_views(out@)),
        out@.len() == pairs@.len(),
{
    let mut out: Vec<(String, u64)> = Vec::new();
    let mut i: usize = 0;
    assert(pair_views(out@) =~= Seq::empty());
    while i < pairs.len()
        invariant
            i <= pairs.len(),
            pair_views(out@) == sorted_upto(pair_views(pairs@), i as int),
            out@.len() == i,
        decreases pairs.len() - i,
    {
        let key: u64 = pairs[i].1;
        let mut pos: usize = out.len();
        while pos > 0 && out[pos - 1].1 > key
            invariant
                pos <= out.len(),
                key == pairs[i as int].1,
                forall|j: int| pos <= j < out.len() ==> out[j].1 > key,
            decreases pos,
        {
            pos = pos - 1;
        }
        let item = (pairs[i].0.clone(), key);
        let ghost before = pair_views(out@);
        let ghost iv = (item.0@, item.1 as nat);
        proof {
            assert(iv == pair_views(pairs@)[i as int]);
            lemma_placed_at(before, iv, pos as int);
        }
        out.insert(pos, item);
        assert(pair_views(out@) =~= before.insert(pos as int, iv));
        i = i + 1;
    }
    proof {
        lemma_sorted_ascending(pair_views(pairs@), pairs@.len() as int);
    }
    out
}

/// Collects the formal names of a state.
pub fn collect_names(res: &ResourceDef, st: &StateDef) -> (names: Vec<String>)
    ensures
        views(names@) == formal_names(*res, *st),
{
    let mut names: Vec<String> = Vec::new();
    let mut i: usize = 0;
    assert(views(names@) =~= Seq::empty());
    while i < res.parameters.len()
        invariant
            i <= res.parameters.len(),
            views(names@) == names_upto(res.parameters@, i as int),
        decreases res.parameters.len() - i,
    {
        let ghost before = views(names@);
        names.push(res.parameters[i].name.clone());
        assert(views(names@) =~= before.push(res.parameters[i as int].name@));
        i = i + 1;
    }
    let mut j: usize = 0;
    while j < st.parameters.len()
        invariant
            j <= st.parameters.len(),
            views(names@) == names_upto(res.parameters@, res.parameters@.len() as int) + names_upto(
                st.parameters@,
                j as int,
            ),
        decreases st.parameters.len() - j,
    {
        let ghost before = views(names@);
        names.push(st.parameters[j].name.clone());
        assert(views(names@) =~= before.push(st.parameters[j as int].name@));
        assert(views(names@) =~= names_upto(res.parameters@, res.parameters@.len() as int) + names_upto(
            st.parameters@,
            j + 1,
        ));
        j = j + 1;
    }
    names
}

/// Inserts each pair's name at its index, in the order given.
#[verifier::loop_isolation(false)]
pub fn insert_class_params(names: Vec<String>, pairs: &Vec<(String, u64)>) -> (r: Result<Vec<String>, GenError>)
    ensures
        match r {
            Ok(v) => inserted_upto(views(names@), pair_views(pairs@), pairs@.len() as int) == Ok::<
                Seq<Seq<char>>,
                GenError,
            >(views(v@)),
            Err(e) => e == GenError::OutOfRange && inserted_upto(
                views(names@),
                pair_views(pairs@),
                pairs@.len() as int,
            ) == Err::<Seq<Seq<char>>, GenError>(e),
        },
{
    let ghost start = views(names@);
    let ghost pv = pair_views(pairs@);
    let mut names = names;
    let mut i: usize = 0;
    while i < pairs.len()
        invariant
            i <= pairs.len(),
            inserted_upto(start, pv, i as int) == Ok::<Seq<Seq<char>>, GenError>(views(names@)),
        decreases pairs.len() - i,
    {
        let index: u64 = pairs[i].1;
        assert(pv[i as int] == (pairs[i as int].0@, pairs[i as int].1 as nat));
        if index <= names.len() as u64 {
            let ghost before = views(names@);
            names.insert(index as usize, pairs[i].0.clone());
            assert(views(names@) =~= before.insert(index as int, pairs[i as int].0@));
        } else {
            proof {
                lemma_inserted_error_stays(start, pv, i + 1, pairs@.len() as int);
            }
            return Err(GenError::OutOfRange);
        }
        i = i + 1;
    }
    Ok(names)
}

impl DSC {
    /// Renders the arguments of the call that `state_decl` declares. Fails
    /// when the called resource or state does not exist, when a class
    /// parameter is malformed or out of range, and when an argument has no
    /// rendering.
    #[verifier::loop_isolation(false)]
    pub fn get_method_parameters(&self, gc: &AST, state_decl: &StateDeclaration) -> (r: Result<String, GenError>)
        ensures
            text_of(r) == method_parameters(*gc, *state_decl),
    {
        let ri = find_resource(&gc.resources, state_decl.resource.as_str());
        if ri >= gc.resources.len() {
            return Err(GenError::MissingReference);
        }
        let res = &gc.resources[ri];
        let si = find_state(&res.states, state_decl.state.as_str());
        if si >= res.states.len() {
            return Err(GenError::MissingReference);
        }
        let st = &res.states[si];
        let pairs = read_class_params(&st.metadata)?;
        let sorted = sort_by_index(pairs);
        let names = insert_class_params(collect_names(res, st), &sorted)?;
        let ghost args = state_decl.resource_params@ + state_decl.state_params@;
        let first = state_decl.resource_params.len();
        let mut out = String::new();
        let mut i: usize = 0;
        while i < first
            invariant
                i <= first,
                first == state_decl.resource_params@.len(),
                args == state_decl.resource_params@ + state_decl.state_params@,
                arguments_upto(args, views(names@), i as int) == Ok::<Seq<char>, GenError>(out@),
            decreases first - i,
        {
            let name: &str = if i < names.len() {
                names[i].as_str()
            } else {
                "unnamed"
            };
            let t = match self.parameter_to_dsc(&state_decl.resource_params[i], name) {
                Ok(t) => t,
                Err(e) => {
                    proof {
                        lemma_arguments_error_stays(args, views(names@), i + 1, args.len() as int);
                    }
                    return Err(e);
                },
            };
            if i > 0 {
                out.append(" ");
            }
            out.append(t.as_str());
            proof {
                if i == 0 {
                    assert(out@ =~= t@);
                }
            }
            i = i + 1;
        }
        let mut j: usize = 0;
        while j < state_decl.state_params.len()
            invariant
                j <= state_decl.state_params.len(),
                first == state_decl.resource_params@.len(),
                args == state_decl.resource_params@ + state_decl.state_params@,
                arguments_upto(args, views(names@), first + j) == Ok::<Seq<char>, GenError>(out@),
            decreases state_decl.state_params.len() - j,
        {
            let name: &str = if first < names.len() && j < names.len() - first {
                names[first + j].as_str()
            } else {
                "unnamed"
            };
            let t = match self.parameter_to_dsc(&state_decl.state_params[j], name) {
                Ok(t) => t,
                Err(e) => {
                    proof {
                        lemma_arguments_error_stays(args, views(names@), first + j + 1, args.len() as int);
                    }
                    return Err(e);
                },
            };
            if first > 0 || j > 0 {
                out.append(" ");
            }
            out.append(t.as_str());
            proof {
                if first + j == 0 {
                    assert(out@ =~= t@);
                }
            }
            j = j + 1;
        }
        Ok(out)
    }
}

/// A class parameter whose index lies beyond the names as they stand when its
/// turn comes makes the insertion fail, whatever follows it.
pub proof fn lemma_out_of_range_fails(names: Seq<Seq<char>>, pairs: Seq<(Seq<char>, nat)>, k: int)
    requires
        0 <= k < pairs.len(),
        forall|j: int| 0 <= j < k ==> pairs[j].1 <= names.len() + j,
        pairs[k].1 > names.len() + k,
    ensures
        inserted_upto(names, pairs, pairs.len() as int) == Err::<Seq<Seq<char>>, GenError>(
            GenError::OutOfRange,
        ),
{
    lemma_inserted_prefix(names, pairs, k);
    lemma_inserted_error_stays(names, pairs, k + 1, pairs.len() as int);
}

/// While every index is in range, each insertion makes the list one longer.
pub proof fn lemma_inserted_prefix(names: Seq<Seq<char>>, pairs: Seq<(Seq<char>, nat)>, k: int)
    requires
        0 <= k <= pairs.len(),
        forall|j: int| 0 <= j < k ==> pairs[j].1 <= names.len() + j,
    ensures
        inserted_upto(names, pairs, k).is_ok(),
        inserted_upto(names, pairs, k).unwrap().len() == names.len() + k,
    decreases k,
{
    if k > 0 {
        lemma_inserted_prefix(names, pairs, k - 1);
    }
}

} // verus!
