//! Which transports a command is about.

use vstd::prelude::*;

use crate::text;
use crate::transport::TransportHandle;

verus! {

/// The names of the transports.
pub open spec fn names_of(handles: Seq<TransportHandle>) -> Seq<Seq<char>> {
    handles.map_values(|h: TransportHandle| h.name@)
}

/// Whether a transport with the name is asked for: any without an argument, and
/// otherwise those that it names.
pub open spec fn is_asked(name: Seq<char>, args: Seq<Seq<char>>) -> bool {
    args.len() == 0 || args[0] == name
}

/// The positions of the first `n` transports that are asked for.
pub open spec fn chosen_among(names: Seq<Seq<char>>, args: Seq<Seq<char>>, n: nat) -> Seq<int>
    decreases n,
{
    if n == 0 {
        Seq::empty()
    } else {
        let before = chosen_among(names, args, (n - 1) as nat);
        if is_asked(names[n - 1], args) {
            before.push(n - 1)
        } else {
            before
        }
    }
}

/// The positions of the transports that are asked for.
pub open spec fn chosen(names: Seq<Seq<char>>, args: Seq<Seq<char>>) -> Seq<int> {
    chosen_among(names, args, names.len())
}

/// Indices as positions.
pub open spec fn positions(indices: Seq<usize>) -> Seq<int> {
    indices.map_values(|i: usize| i as int)
}

/// The names at the given positions.
pub open spec fn names_in(names: Seq<Seq<char>>, at: Seq<int>) -> Seq<Seq<char>> {
    at.map_values(|i: int| names[i])
}

/// The names of the transports that are asked for.
pub open spec fn chosen_names(names: Seq<Seq<char>>, args: Seq<Seq<char>>) -> Seq<Seq<char>> {
    names_in(names, chosen(names, args))
}

/// What is said when no transport has the name.
pub open spec fn unknown_transport(names: Seq<Seq<char>>, name: Seq<char>) -> Seq<char> {
    "Unknown transport '"@ + name + "'. Available: "@ + text::join(names, ", "@)
}

/// What is said when no transport can be chosen.
pub open spec fn refusal(names: Seq<Seq<char>>, args: Seq<Seq<char>>) -> Option<Seq<char>> {
    if names.len() == 0 {
        Some("No transports configured."@)
    } else if chosen(names, args).len() == 0 {
        Some(unknown_transport(names, args[0]))
    } else {
        None
    }
}

/// The names of the transports, in their order.
pub fn handle_names(handles: &Vec<TransportHandle>) -> (names: Vec<String>)
    ensures
        text::string_views(names@) == names_of(handles@),
{
    let mut names: Vec<String> = Vec::new();
    let mut i: usize = 0;
    while i < handles.len()
        invariant
            i <= handles@.len(),
            names@.len() == i,
            forall|j: int| 0 <= j < i ==> (#[trigger] names@[j])@ == handles@[j].name@,
        decreases handles@.len() - i,
    {
        names.push(handles[i].name.clone());
        i = i + 1;
    }
    assert(text::string_views(names@) =~= names_of(handles@));
    names
}

/// Say that no transport has the name.
pub fn unknown_transport_text(handles: &Vec<TransportHandle>, name: &str) -> (message: String)
    ensures
        message@ == unknown_transport(names_of(handles@), name@),
{
    let names = handle_names(handles);
    let mut message = String::new();
    message.append("Unknown transport '");
    message.append(name);
    message.append("'. Available: ");
    let joined = text::join_strings(&names, ", ");
    message.append(joined.as_str());
    message
}

/// The positions of the transports that are asked for, or what to say instead.
pub fn select(handles: &Vec<TransportHandle>, args: &[&str]) -> (selected: Result<
    Vec<usize>,
    String,
>)
    ensures
        match selected {
            Ok(indices) => {
                &&& refusal(names_of(handles@), text::views(args@)) is None
                &&& positions(indices@) == chosen(
                    names_of(handles@),
                    text::views(args@),
                )
                &&& forall|i: int| 0 <= i < indices@.len() ==> #[trigger] indices@[i] < handles@.len()
            },
            Err(message) => refusal(names_of(handles@), text::views(args@)) == Some(message@),
        },
{
    let ghost names = names_of(handles@);
    let ghost asked = text::views(args@);
    if handles.len() == 0 {
        return Err("No transports configured.".to_owned());
    }
    let mut indices: Vec<usize> = Vec::new();
    let mut i: usize = 0;
    assert(positions(indices@) =~= Seq::<int>::empty());
    while i < handles.len()
        invariant
            i <= handles@.len(),
            names == names_of(handles@),
            asked == text::views(args@),
            positions(indices@) == chosen_among(names, asked, i as nat),
            forall|j: int| 0 <= j < indices@.len() ==> #[trigger] indices@[j] < handles@.len(),
        decreases handles@.len() - i,
    {
        let wanted: bool = if args.len() == 0 {
            true
        } else {
            text::same_text(handles[i].name.as_str(), args[0])
        };
        assert(wanted == is_asked(names[i as int], asked));
        if wanted {
            let ghost before = indices@;
            indices.push(i);
            assert(positions(indices@) =~= positions(before).push(i as int));
        }
        i = i + 1;
    }
    if indices.len() == 0 {
        assert(chosen(names, asked).len() == 0);
        proof {
            if args@.len() == 0 {
                all_chosen(names, asked, names.len());
            }
        }
        return Err(unknown_transport_text(handles, args[0]));
    }
    assert(chosen(names, asked).len() == indices@.len());
    Ok(indices)
}

/// The names of the transports at the given positions.
pub fn names_at(handles: &Vec<TransportHandle>, indices: &Vec<usize>) -> (names: Vec<String>)
    requires
        forall|i: int| 0 <= i < indices@.len() ==> #[trigger] indices@[i] < handles@.len(),
    ensures
        names@.len() == indices@.len(),
        text::string_views(names@) == names_in(
            names_of(handles@),
            positions(indices@),
        ),
{
    let mut names: Vec<String> = Vec::new();
    let mut i: usize = 0;
    while i < indices.len()
        invariant
            i <= indices@.len(),
            names@.len() == i,
            forall|j: int| 0 <= j < indices@.len() ==> #[trigger] indices@[j] < handles@.len(),
            forall|j: int|
                0 <= j < i ==> (#[trigger] names@[j])@ == handles@[indices@[j] as int].name@,
        decreases indices@.len() - i,
    {
        names.push(handles[indices[i]].name.clone());
        i = i + 1;
    }
    assert(text::string_views(names@) =~= names_in(
        names_of(handles@),
        positions(indices@),
    ));
    names
}

proof fn all_chosen(names: Seq<Seq<char>>, args: Seq<Seq<char>>, n: nat)
    requires
        args.len() == 0,
    ensures
        chosen_among(names, args, n).len() == n,
    decreases n,
{
    if n > 0 {
        all_chosen(names, args, (n - 1) as nat);
    }
}

/// Exactly the transports that are asked for are chosen, in their order and each
/// once.
pub proof fn chosen_are_asked(names: Seq<Seq<char>>, args: Seq<Seq<char>>)
    ensures
        forall|i: int|
            0 <= i < names.len() ==> (is_asked(names[i], args) <==> #[trigger] chosen(
                names,
                args,
            ).contains(i)),
        forall|i: int|
            0 <= i < names.len() ==> (args.len() == 0 || names[i] == args[0] <==> #[trigger] chosen(
                names,
                args,
            ).contains(i)),
        forall|j: int|
            0 <= j < chosen(names, args).len() ==> 0 <= #[trigger] chosen(names, args)[j]
                < names.len(),
        forall|j: int, k: int|
            0 <= j < k < chosen(names, args).len() ==> #[trigger] chosen(names, args)[j]
                < #[trigger] chosen(names, args)[k],
{
    chosen_among_are_asked(names, args, names.len());
}

proof fn chosen_among_are_asked(names: Seq<Seq<char>>, args: Seq<Seq<char>>, n: nat)
    ensures
        forall|i: int|
            0 <= i < n ==> (is_asked(names[i], args) <==> #[trigger] chosen_among(
                names,
                args,
                n,
            ).contains(i)),
        forall|j: int|
            0 <= j < chosen_among(names, args, n).len() ==> 0 <= #[trigger] chosen_among(
                names,
                args,
                n,
            )[j] < n,
        forall|j: int, k: int|
            0 <= j < k < chosen_among(names, args, n).len() ==> #[trigger] chosen_among(
                names,
                args,
                n,
            )[j] < #[trigger] chosen_among(names, args, n)[k],
    decreases n,
{
    if n > 0 {
        let m = (n - 1) as nat;
        chosen_among_are_asked(names, args, m);
        let before = chosen_among(names, args, m);
        let after = chosen_among(names, args, n);
        assert forall|i: int| 0 <= i < n implies (is_asked(names[i], args) <==> #[trigger]
            after.contains(i)) by {
            if i < m {
                if before.contains(i) {
                    let j = choose|j: int| 0 <= j < before.len() && before[j] == i;
                    assert(after[j] == i);
                }
                if after.contains(i) {
                    let j = choose|j: int| 0 <= j < after.len() && after[j] == i;
                    assert(j < before.len());
                    assert(before[j] == i);
                }
            } else {
                if is_asked(names[i], args) {
                    assert(after[before.len() as int] == i);
                } else if after.contains(i) {
                    let j = choose|j: int| 0 <= j < after.len() && after[j] == i;
                    assert(before[j] < m);
                }
            }
        }
    }
}

} // verus!
