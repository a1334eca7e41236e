//! Reading what the cluster lists: namespaces and resource names.

use vstd::prelude::*;
use crate::text::{lines, split_lines, split_words, starts_with, views, words};

verus! {

/// A namespace is backed up unless its name is empty or begins with `kube-`
/// or `cattle-`: those are the cluster's own and the management layer's.
pub open spec fn is_kept(name: Seq<char>) -> bool {
    &&& name.len() > 0
    &&& !"kube-"@.is_prefix_of(name)
    &&& !"cattle-"@.is_prefix_of(name)
}

/// The names that are backed up, in the order in which they came.
pub open spec fn kept_names(names: Seq<Seq<char>>) -> Seq<Seq<char>> {
    names.filter(|name: Seq<char>| is_kept(name))
}

/// Tells whether a namespace is backed up.
pub fn keep_namespace(name: &str) -> (r: bool)
    ensures
        r == is_kept(name@),
{
    !name.is_empty() && !starts_with(name, "kube-") && !starts_with(name, "cattle-")
}

/// The namespaces that are backed up, in the order in which they came.
pub fn filter_namespaces(names: &Vec<String>) -> (out: Vec<String>)
    ensures
        views(out@) == kept_names(views(names@)),
{
    let mut out: Vec<String> = Vec::new();
    let mut i: usize = 0;
    proof {
        reveal(Seq::filter);
        assert(views(names@).take(0) =~= Seq::<Seq<char>>::empty());
        assert(views(out@) =~= Seq::<Seq<char>>::empty());
    }
    while i < names.len()
        invariant
            i <= names.len(),
            views(out@) == kept_names(views(names@).take(i as int)),
        decreases names.len() - i,
    {
        proof {
            reveal(Seq::filter);
            let seen = views(names@).take(i as int + 1);
            assert(seen.drop_last() =~= views(names@).take(i as int));
            assert(seen.last() == names@[i as int]@);
        }
        if keep_namespace(names[i].as_str()) {
            let ghost before = out@;
            out.push(names[i].clone());
            assert(views(out@) =~= views(before).push(names@[i as int]@));
        }
        i += 1;
    }
    proof {
        assert(views(names@).take(names.len() as int) =~= views(names@));
    }
    out
}

/// Reads the cluster's list of namespaces, one name on each line, and keeps
/// those that are backed up.
pub fn parse_namespaces(output: &str) -> (out: Vec<String>)
    ensures
        views(out@) == kept_names(lines(output@)),
{
    let all = split_lines(output);
    filter_namespaces(&all)
}

/// Reads the cluster's list of the resources of one kind in one namespace:
/// names with white space between them. An empty list is a list.
pub fn parse_resource_names(output: &str) -> (out: Vec<String>)
    ensures
        views(out@) == words(output@),
{
    split_words(output)
}

} // verus!
