//! Naming a repository as `owner/name`.

use crate::text::{join, lemma_split_join, split, split_text};
use vstd::prelude::*;

verus! {

/// A repository on the hosting service: the account that owns it, and its name there.
#[derive(Clone, Debug, PartialEq, Eq)]
pub struct RepositoryReference {
    pub owner: String,
    pub name: String,
}

/// The failure when an identifier is not of the form `owner/name`.
#[derive(Clone, Copy, Debug, PartialEq, Eq, Structural)]
pub struct InvalidRepository;

impl RepositoryReference {
    /// Both parts are there, and neither holds a slash.
    pub open spec fn wf(&self) -> bool {
        &&& self.owner@.len() > 0
        &&& self.name@.len() > 0
        &&& !self.owner@.contains('/')
        &&& !self.name@.contains('/')
    }

    /// The identifier that names this repository.
    pub open spec fn identifier(&self) -> Seq<char> {
        self.owner@.push('/') + self.name@
    }
}

/// The owner and the name that `identifier` gives, if it is two pieces with one slash
/// between them and neither piece is empty.
pub open spec fn repository_spec(identifier: Seq<char>) -> Option<(Seq<char>, Seq<char>)> {
    let pieces = split(identifier, '/');
    if pieces.len() == 2 && pieces[0].len() > 0 && pieces[1].len() > 0 {
        Some((pieces[0], pieces[1]))
    } else {
        None
    }
}

/// Reads a repository from its identifier.
pub fn parse_repository(identifier: &str) -> (r: Result<RepositoryReference, InvalidRepository>)
    ensures
        match r {
            Ok(repository) => {
                &&& repository_spec(identifier@) == Some((repository.owner@, repository.name@))
                &&& repository.wf()
                &&& repository.identifier() == identifier@
            },
            Err(_) => repository_spec(identifier@) is None,
        },
{
    let pieces = split_text(identifier, '/');
    if pieces.len() != 2 {
        return Err(InvalidRepository);
    }
    assert(pieces.deep_view()[0] == pieces[0]@);
    assert(pieces.deep_view()[1] == pieces[1]@);
    if pieces[0].as_str().is_empty() || pieces[1].as_str().is_empty() {
        return Err(InvalidRepository);
    }
    let repository = RepositoryReference { owner: pieces[0].clone(), name: pieces[1].clone() };
    proof {
        let cut = split(identifier@, '/');
        lemma_split_join(identifier@, '/');
        assert(cut.drop_last() =~= seq![cut[0]]);
        assert(join(cut.drop_last(), '/') == cut[0]);
        assert(join(cut, '/') == cut[0].push('/') + cut[1]);
        assert(!cut[0].contains('/'));
        assert(!cut[1].contains('/'));
    }
    Ok(repository)
}

} // verus!
