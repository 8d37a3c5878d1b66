//! Process identity: from the command line of a process to its identity,
//! and the cache of identities by bus endpoint.

use crate::bus::{ProcessIdentity, ProcessIdentityView};
use crate::keyed::{
    distinct_keys, lemma_keyed_updates, lemma_position_of, position_of, value_under, with_entry,
};
use crate::text::{chars_of, same_text};
use vstd::prelude::*;
use vstd::string::*;
use vstd::utf8::{decode_utf8, valid_utf8};

verus! {

/// Whether an endpoint identifier names an anonymous connection: it begins
/// with a colon. Only these are resolved to a process.
pub open spec fn is_anonymous(name: Seq<char>) -> bool {
    name.len() > 0 && name[0] == ':'
}

/// Decides whether an endpoint identifier names an anonymous connection.
pub fn needs_resolution(name: &str) -> (yes: bool)
    ensures
        yes == is_anonymous(name@),
{
    let chars = chars_of(name);
    chars.len() > 0 && chars[0] == ':'
}

/// `String::from_utf8`: the text that the bytes encode, where they are
/// well-formed UTF-8, and nothing where they are not.
#[verifier::external_body]
fn decode_text(bytes: Vec<u8>) -> (text: Option<String>)
    ensures
        match text {
            Some(decoded) => valid_utf8(bytes@) && decoded@ == decode_utf8(bytes@),
            None => !valid_utf8(bytes@),
        },
{
    String::from_utf8(bytes).ok()
}

/// The last component of a path, as `std::path::Path::file_name` finds it,
/// or nothing where the path has none (it is empty, is the root, or ends in
/// `..`).
pub uninterp spec fn file_name_of(path: Seq<char>) -> Option<Seq<char>>;

/// `std::path::Path::file_name`, the result converted with
/// `to_string_lossy`: the last component of `path`, if it has one.
#[verifier::external_body]
fn file_name(path: &str) -> (name: Option<String>)
    ensures
        name is Some == file_name_of(path@) is Some,
        name matches Some(found) ==> file_name_of(path@) == Some(found@),
{
    std::path::Path::new(path).file_name().map(|name| name.to_string_lossy().to_string())
}

/// The position of the first zero byte, or the length where there is none.
pub open spec fn first_nul(bytes: Seq<u8>) -> int
    decreases bytes.len(),
{
    if bytes.len() == 0 {
        0
    } else if bytes[0] == 0 {
        0
    } else {
        1 + first_nul(bytes.drop_first())
    }
}

/// The argument that a run of bytes stands for: its text, where the run is
/// not empty and is well-formed UTF-8.
pub open spec fn argument_of(piece: Seq<u8>) -> Seq<Seq<char>> {
    if piece.len() > 0 && valid_utf8(piece) {
        seq![decode_utf8(piece)]
    } else {
        Seq::empty()
    }
}

/// The argument vector that a command line holds: the runs of bytes between
/// zero bytes, without the empty ones and those that are not well-formed
/// UTF-8.
pub open spec fn arguments(cmdline: Seq<u8>) -> Seq<Seq<char>>
    decreases cmdline.len(),
{
    let end = first_nul(cmdline);
    if end < 0 || end >= cmdline.len() {
        argument_of(cmdline)
    } else {
        argument_of(cmdline.take(end)) + arguments(cmdline.skip(end + 1))
    }
}

/// The identity of a process without a usable command line.
pub open spec fn unknown_identity(pid: u32) -> ProcessIdentityView {
    ProcessIdentityView {
        pid,
        name: "Unknown"@,
        path: Seq::empty(),
        args: Seq::empty(),
    }
}

/// The identity of the process `pid` with the given command line: unknown
/// where the command line holds no argument; nothing where the first
/// argument has no last component; else the first argument as path and its
/// last component as name.
pub open spec fn identity_of(pid: u32, cmdline: Seq<u8>) -> Option<ProcessIdentityView> {
    let args = arguments(cmdline);
    identity_named(
        pid,
        args,
        if args.len() > 0 {
            file_name_of(args[0])
        } else {
            None
        },
    )
}

/// Whether the identity found for a command line is remembered: it is,
/// where the command line holds an argument and a name was found.
pub open spec fn is_remembered(cmdline: Seq<u8>) -> bool {
    arguments(cmdline).len() > 0 && file_name_of(arguments(cmdline)[0]) is Some
}

/// The argument vector that a command line holds.
pub fn split_arguments(cmdline: &Vec<u8>) -> (args: Vec<String>)
    ensures
        args.deep_view() == arguments(cmdline@),
{
    let mut args: Vec<String> = Vec::new();
    let mut start: usize = 0;
    let mut open = true;
    assert(cmdline@.skip(0) =~= cmdline@);
    assert(args.deep_view() =~= Seq::<Seq<char>>::empty());
    while open
        invariant
            start <= cmdline.len(),
            open ==> arguments(cmdline@) == args.deep_view() + arguments(
                cmdline@.skip(start as int),
            ),
            !open ==> arguments(cmdline@) == args.deep_view(),
        decreases cmdline.len() - start + (if open { 1int } else { 0int }),
    {
        let ghost rest = cmdline@.skip(start as int);
        let mut piece: Vec<u8> = Vec::new();
        let mut end: usize = start;
        assert(rest.skip(0) =~= rest);
        while end < cmdline.len() && cmdline[end] != 0
            invariant
                start <= end <= cmdline.len(),
                rest == cmdline@.skip(start as int),
                first_nul(rest) == (end - start) + first_nul(rest.skip(end - start)),
                piece@ == rest.take(end - start),
            decreases cmdline.len() - end,
        {
            assert(rest.skip(end - start)[0] == cmdline@[end as int]);
            assert(rest.skip(end - start).drop_first() =~= rest.skip(end - start + 1));
            piece.push(cmdline[end]);
            end += 1;
            assert(piece@ =~= rest.take(end - start));
        }
        proof {
            if end < cmdline.len() {
                assert(rest.skip(end - start)[0] == cmdline@[end as int]);
            }
            assert(first_nul(rest) == end - start);
        }
        let ghost before = args.deep_view();
        let ghost piece_bytes = piece@;
        if piece.len() > 0 {
            match decode_text(piece) {
                Some(text) => {
                    args.push(text);
                    assert(args.deep_view() =~= before + argument_of(piece_bytes));
                },
                None => {},
            }
        }
        assert(args.deep_view() =~= before + argument_of(piece_bytes));
        if end >= cmdline.len() {
            open = false;
            assert(rest.take(end - start) =~= rest);
        } else {
            assert(cmdline@.skip(end + 1) =~= rest.skip(end - start + 1));
            assert(arguments(cmdline@) =~= args.deep_view() + arguments(cmdline@.skip(end + 1)));
            start = end + 1;
        }
    }
    args
}

/// The identity of the process `pid` with the given command line.
pub fn identity_from_cmdline(pid: u32, cmdline: &Vec<u8>) -> (identity: Option<ProcessIdentity>)
    ensures
        identity is Some == identity_of(pid, cmdline@) is Some,
        identity matches Some(found) ==> identity_of(pid, cmdline@) == Some(found@),
{
    let args = split_arguments(cmdline);
    identity_from_arguments(pid, args)
}

/// The text of an optional string.
pub open spec fn optional_text(text: Option<String>) -> Option<Seq<char>> {
    match text {
        Some(text) => Some(text@),
        None => None,
    }
}

/// The identity of the process `pid` with the given argument vector, where
/// `name` is the last component of the first argument: unknown where the
/// vector is empty, nothing where there is no such component.
pub open spec fn identity_named(pid: u32, args: Seq<Seq<char>>, name: Option<Seq<char>>) -> Option<
    ProcessIdentityView,
> {
    if args.len() == 0 {
        Some(unknown_identity(pid))
    } else {
        match name {
            Some(name) => Some(ProcessIdentityView { pid, name, path: args[0], args }),
            None => None,
        }
    }
}

/// The identity of the process `pid` with the given argument vector, where
/// `name` is the last component of the first argument, if it has one.
pub fn identity_with_name(pid: u32, args: Vec<String>, name: Option<String>) -> (identity: Option<
    ProcessIdentity,
>)
    ensures
        identity is Some == identity_named(pid, args.deep_view(), optional_text(name)) is Some,
        identity matches Some(found) ==> identity_named(
            pid,
            args.deep_view(),
            optional_text(name),
        ) == Some(found@),
{
    if args.len() == 0 {
        let unknown = ProcessIdentity {
            pid,
            name: String::from_str("Unknown"),
            path: String::new(),
            args: Vec::new(),
        };
        assert(unknown@.args =~= Seq::<Seq<char>>::empty());
        return Some(unknown);
    }
    match name {
        Some(name) => {
            let path = args[0].clone();
            Some(ProcessIdentity { pid, name, path, args })
        },
        None => None,
    }
}

/// The identity of the process `pid` with the given argument vector:
/// unknown where the vector is empty, nothing where the first argument has
/// no last component.
pub fn identity_from_arguments(pid: u32, args: Vec<String>) -> (identity: Option<ProcessIdentity>)
    ensures
        identity is Some == identity_named(
            pid,
            args.deep_view(),
            if args@.len() > 0 {
                file_name_of(args@[0]@)
            } else {
                None
            },
        ) is Some,
        identity matches Some(found) ==> identity_named(
            pid,
            args.deep_view(),
            if args@.len() > 0 {
                file_name_of(args@[0]@)
            } else {
                None
            },
        ) == Some(found@),
{
    let name = if args.len() > 0 {
        file_name(args[0].as_str())
    } else {
        None
    };
    identity_with_name(pid, args, name)
}

/// What is to be done to know the process behind an endpoint.
#[derive(Debug, PartialEq, Eq)]
pub enum Lookup {
    /// Nothing: the endpoint is no anonymous connection and is not resolved.
    NotNeeded,
    /// Nothing: the identity is remembered.
    Cached(ProcessIdentity),
    /// The bus daemon has to be asked for the process id, and the process
    /// table for the command line.
    Needed,
}

/// What a lookup is in contracts.
pub ghost enum LookupView {
    NotNeeded,
    Cached(ProcessIdentityView),
    Needed,
}

impl View for Lookup {
    type V = LookupView;

    open spec fn view(&self) -> LookupView {
        match self {
            Lookup::NotNeeded => LookupView::NotNeeded,
            Lookup::Cached(identity) => LookupView::Cached(identity@),
            Lookup::Needed => LookupView::Needed,
        }
    }
}

/// What is to be done for an endpoint, given what is remembered.
pub open spec fn lookup_for(
    cache: Seq<(Seq<char>, ProcessIdentityView)>,
    name: Seq<char>,
) -> LookupView {
    if !is_anonymous(name) {
        LookupView::NotNeeded
    } else {
        match value_under(cache, name) {
            Some(identity) => LookupView::Cached(identity),
            None => LookupView::Needed,
        }
    }
}

/// The identities that were found, by endpoint identifier. An identity that
/// was remembered stays until another is remembered for the same endpoint;
/// the cache never shrinks.
pub struct IdentityCache {
    entries: Vec<(String, ProcessIdentity)>,
}

impl View for IdentityCache {
    type V = Seq<(Seq<char>, ProcessIdentityView)>;

    closed spec fn view(&self) -> Seq<(Seq<char>, ProcessIdentityView)> {
        Seq::new(self.entries@.len(), |i: int| (self.entries@[i].0@, self.entries@[i].1@))
    }
}

impl IdentityCache {
    /// An empty cache.
    pub fn new() -> (cache: IdentityCache)
        ensures
            cache@ == Seq::<(Seq<char>, ProcessIdentityView)>::empty(),
            distinct_keys(cache@),
    {
        let cache = IdentityCache { entries: Vec::new() };
        assert(cache@ =~= Seq::<(Seq<char>, ProcessIdentityView)>::empty());
        cache
    }

    /// The number of endpoints with a remembered identity.
    pub fn len(&self) -> (len: usize)
        ensures
            len == self@.len(),
    {
        self.entries.len()
    }

    fn find(&self, name: &str) -> (at: usize)
        ensures
            at == position_of(self@, name@),
            at <= self@.len(),
    {
        let mut at: usize = 0;
        proof {
            lemma_position_of(self@, name@);
            assert(self@.skip(0) =~= self@);
        }
        while at < self.entries.len()
            invariant
                at <= self.entries.len(),
                self.entries@.len() == self@.len(),
                position_of(self@, name@) == at + position_of(self@.skip(at as int), name@),
            decreases self.entries.len() - at,
        {
            assert(self@.skip(at as int)[0] == self@[at as int]);
            if same_text(self.entries[at].0.as_str(), name) {
                return at;
            }
            assert(self@.skip(at as int).drop_first() =~= self@.skip(at + 1));
            at += 1;
        }
        at
    }

    /// The identity remembered for an endpoint, if one is.
    pub fn lookup(&self, name: &str) -> (identity: Option<ProcessIdentity>)
        ensures
            identity is Some == value_under(self@, name@) is Some,
            identity matches Some(found) ==> value_under(self@, name@) == Some(found@),
    {
        let at = self.find(name);
        if at < self.entries.len() {
            Some(self.entries[at].1.duplicate())
        } else {
            None
        }
    }

    /// Decides what is to be done to know the process behind an endpoint:
    /// nothing for an endpoint that is no anonymous connection, nothing for
    /// one whose identity is remembered, a resolution for any other.
    pub fn plan(&self, name: &str) -> (lookup: Lookup)
        ensures
            lookup@ == lookup_for(self@, name@),
    {
        if !needs_resolution(name) {
            Lookup::NotNeeded
        } else {
            match self.lookup(name) {
                Some(identity) => Lookup::Cached(identity),
                None => Lookup::Needed,
            }
        }
    }

    /// Remembers an identity for an endpoint, in place of the one remembered
    /// before, if one was.
    pub fn remember(&mut self, name: &str, identity: ProcessIdentity)
        ensures
            final(self)@ == with_entry(old(self)@, name@, identity@),
            value_under(final(self)@, name@) == Some(identity@),
            final(self)@.len() >= old(self)@.len(),
            distinct_keys(old(self)@) ==> distinct_keys(final(self)@),
    {
        proof {
            lemma_position_of(self@, name@);
            lemma_position_of(with_entry(self@, name@, identity@), name@);
            if distinct_keys(self@) {
                lemma_keyed_updates(self@, name@, identity@, name@);
            }
        }
        let at = self.find(name);
        let ghost put = with_entry(self@, name@, identity@);
        if at < self.entries.len() {
            self.entries.set(at, (String::from_str(name), identity));
            assert(self@ =~= put);
        } else {
            self.entries.push((String::from_str(name), identity));
            assert(self@ =~= put);
        }
        proof {
            let found = position_of(put, name@);
            if at < old(self)@.len() {
                assert(put[at as int].0 == name@);
                if found != at {
                    assert(put[found] == old(self)@[found]);
                }
            } else {
                assert(put[old(self)@.len() as int].0 == name@);
                if found < old(self)@.len() {
                    assert(put[found] == old(self)@[found]);
                }
            }
        }
    }

    /// Takes note of what was found out about an endpoint: the process id
    /// that owns the connection and the command line of that process. The
    /// identity is returned, and remembered where the command line gave a
    /// name.
    pub fn learn(&mut self, name: &str, pid: u32, cmdline: &Vec<u8>) -> (identity: Option<
        ProcessIdentity,
    >)
        ensures
            identity is Some == identity_of(pid, cmdline@) is Some,
            identity matches Some(found) ==> identity_of(pid, cmdline@) == Some(found@),
            is_remembered(cmdline@) ==> final(self)@ == with_entry(
                old(self)@,
                name@,
                identity_of(pid, cmdline@)->0,
            ),
            !is_remembered(cmdline@) ==> final(self)@ == old(self)@,
            final(self)@.len() >= old(self)@.len(),
            distinct_keys(old(self)@) ==> distinct_keys(final(self)@),
    {
        match identity_from_cmdline(pid, cmdline) {
            Some(found) => {
                assert(found@.args.len() == found.args.len());
                if found.args.len() > 0 {
                    self.remember(name, found.duplicate());
                }
                Some(found)
            },
            None => None,
        }
    }
}

} // verus!
