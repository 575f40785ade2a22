//! Semantic versions of software releases.
use crate::text::{decimal, push_char, push_decimal};
use core::cmp::Ordering;
use vstd::prelude::*;

verus! {

/// `semver::Error`, the failure of reading a version; carried through as
/// the source of an error, never looked into.
#[verifier::external_type_specification]
#[verifier::external_body]
pub struct ExSemverError(semver::Error);

/// The major, minor and patch numbers, the prerelease and the build metadata
/// of a version.
pub type VersionParts = (u64, u64, u64, Seq<char>, Seq<char>);

/// The parts semver reads `text` as, if it reads it as a version.
pub uninterp spec fn semver_version(text: Seq<char>) -> Option<VersionParts>;

/// How semver orders the prereleases `a` and `b`, if it reads both as
/// prereleases.
pub uninterp spec fn prerelease_order(a: Seq<char>, b: Seq<char>) -> Option<Ordering>;

/// Whether semver reads `pre` as a prerelease, which it orders equal to
/// itself.
pub open spec fn valid_prerelease(pre: Seq<char>) -> bool {
    prerelease_order(pre, pre) == Some(Ordering::Equal)
}

/// Whether `order` is known and not `Less`.
pub open spec fn at_least(order: Option<Ordering>) -> bool {
    order matches Some(o) && o != Ordering::Less
}

/// Reads `text` as a semantic version.
///
/// Calls `semver::Version::parse` and hands back the parts of the version it
/// returns. The contract names the result and claims that a prerelease read
/// as part of a version is read as a prerelease on its own, which holds
/// because both go through the same prerelease parser of semver, and that
/// semver orders it equal to itself, as its `Ord` for `Prerelease` does for
/// any two prereleases of the same text.
#[verifier::external_body]
fn parse_version(text: &str) -> (parts: Result<(u64, u64, u64, String, String), semver::Error>)
    ensures
        parts is Ok <==> semver_version(text@) is Some,
        parts matches Ok(p) ==> semver_version(text@) == Some((p.0, p.1, p.2, p.3@, p.4@)),
        parts matches Ok(p) ==> valid_prerelease(p.3@),
{
    let version = semver::Version::parse(text)?;
    Ok(
        (
            version.major,
            version.minor,
            version.patch,
            version.pre.as_str().to_owned(),
            version.build.as_str().to_owned(),
        ),
    )
}

/// The reverse of `order`.
pub open spec fn reversed(order: Ordering) -> Ordering {
    match order {
        Ordering::Less => Ordering::Greater,
        Ordering::Equal => Ordering::Equal,
        Ordering::Greater => Ordering::Less,
    }
}

/// Compares two prereleases by semver's precedence.
///
/// Reads both with `semver::Prerelease::new` and compares them with the
/// `Ord` implementation of `semver::Prerelease`. The contract names the
/// result; it claims that the result is not `None` when both texts are
/// prereleases, that each of them then compares with every other prerelease,
/// that swapping the two reverses the order, and that the order is
/// transitive: a prerelease at least `b` is at least every prerelease that
/// `b` is at least. That implementation's code shows both: it compares the
/// dot-separated identifiers one after the other, numeric ones by length and
/// then as text, numeric before alphanumeric, alphanumeric ones as text, and
/// a longer list above its own prefix.
#[verifier::external_body]
fn compare_prerelease(a: &str, b: &str) -> (order: Option<Ordering>)
    ensures
        order == prerelease_order(a@, b@),
        valid_prerelease(a@) && valid_prerelease(b@) ==> order is Some,
        order matches Some(o) ==> prerelease_order(b@, a@) == Some(reversed(o)),
        order is Some ==> forall|c: Seq<char>|
            #[trigger] valid_prerelease(c) ==> prerelease_order(a@, c) is Some
                && prerelease_order(b@, c) is Some,
        at_least(order) ==> forall|c: Seq<char>|
            #[trigger] at_least(prerelease_order(b@, c)) ==> at_least(prerelease_order(a@, c)),
{
    match (semver::Prerelease::new(a), semver::Prerelease::new(b)) {
        (Ok(a), Ok(b)) => Some(a.cmp(&b)),
        _ => None,
    }
}

/// A string could not be parsed as a [`SemanticVersion`].
#[derive(Debug)]
pub struct ParseSemanticVersionError(pub semver::Error);

/// A semantic version of a software release.
///
/// A semantic version has major, minor, and patch numbers and may also have
/// prerelease or build metadata. Semantic-version precedence ignores build
/// metadata, so use [`cmp_precedence`](Self::cmp_precedence) when deciding
/// which of two releases has greater precedence.
#[derive(Debug, PartialEq, Eq, Hash)]
pub struct SemanticVersion {
    major: u64,
    minor: u64,
    patch: u64,
    pre: String,
    build: String,
}

/// Whether `v` is a version whose prerelease, if it has one, semver reads.
pub open spec fn valid_parts(v: VersionParts) -> bool {
    v.3.len() > 0 ==> valid_prerelease(v.3)
}

/// Orders two numbers.
pub open spec fn order_of(a: u64, b: u64) -> Ordering {
    if a < b {
        Ordering::Less
    } else if a > b {
        Ordering::Greater
    } else {
        Ordering::Equal
    }
}

/// Semantic-version precedence: by major, minor and patch number, then a
/// release above each of its prereleases, then prereleases by semver's order.
/// Build metadata takes no part.
pub open spec fn precedence(a: VersionParts, b: VersionParts) -> Ordering {
    if a.0 != b.0 {
        order_of(a.0, b.0)
    } else if a.1 != b.1 {
        order_of(a.1, b.1)
    } else if a.2 != b.2 {
        order_of(a.2, b.2)
    } else if a.3.len() == 0 && b.3.len() == 0 {
        Ordering::Equal
    } else if a.3.len() == 0 {
        Ordering::Greater
    } else if b.3.len() == 0 {
        Ordering::Less
    } else {
        prerelease_order(a.3, b.3)->0
    }
}

/// Build metadata takes no part in precedence: two versions compare the same
/// whatever build metadata either carries.
pub proof fn law_build_metadata_ignored(a: VersionParts, b: VersionParts, build_a: Seq<char>, build_b: Seq<char>)
    ensures
        precedence((a.0, a.1, a.2, a.3, build_a), (b.0, b.1, b.2, b.3, build_b)) == precedence(a, b),
{
}

/// A release has greater precedence than each of its prereleases, and each
/// prerelease lower precedence than its release.
pub proof fn law_release_outranks_prerelease(release: VersionParts, prerelease: VersionParts)
    requires
        release.0 == prerelease.0,
        release.1 == prerelease.1,
        release.2 == prerelease.2,
        release.3.len() == 0,
        prerelease.3.len() > 0,
    ensures
        precedence(release, prerelease) == Ordering::Greater,
        precedence(prerelease, release) == Ordering::Less,
{
}

/// Versions that differ in their major, minor or patch numbers are ordered by
/// the first of those that differs, whatever their prereleases.
pub proof fn law_numbers_decide_first(a: VersionParts, b: VersionParts)
    requires
        (a.0, a.1, a.2) != (b.0, b.1, b.2),
    ensures
        precedence(a, b) == (if a.0 != b.0 {
            order_of(a.0, b.0)
        } else if a.1 != b.1 {
            order_of(a.1, b.1)
        } else {
            order_of(a.2, b.2)
        }),
        precedence(b, a) == reversed(precedence(a, b)),
{
}

/// The text of a version: `major.minor.patch`, then `-` and the prerelease if
/// there is one, then `+` and the build metadata if there is any.
pub open spec fn version_text(v: VersionParts) -> Seq<char> {
    let numbers = decimal(v.0 as nat) + seq!['.'] + decimal(v.1 as nat) + seq!['.'] + decimal(
        v.2 as nat,
    );
    let with_pre = if v.3.len() == 0 {
        numbers
    } else {
        numbers + seq!['-'] + v.3
    };
    if v.4.len() == 0 {
        with_pre
    } else {
        with_pre + seq!['+'] + v.4
    }
}

impl SemanticVersion {
    /// A nonempty prerelease is one semver reads.
    #[verifier::type_invariant]
    pub open spec fn wf(&self) -> bool {
        valid_parts(self.parts())
    }

    /// The parts of this version.
    pub closed spec fn parts(&self) -> VersionParts {
        (self.major, self.minor, self.patch, self.pre@, self.build@)
    }

    /// The semantic version, without prerelease or build metadata.
    pub fn new(major: u64, minor: u64, patch: u64) -> (version: Self)
        ensures
            version.parts() == (major, minor, patch, Seq::<char>::empty(), Seq::<char>::empty()),
    {
        let version = SemanticVersion {
            major,
            minor,
            patch,
            pre: String::new(),
            build: String::new(),
        };
        version
    }

    /// Reads `text` as a semantic version.
    pub fn parse(text: &str) -> (version: Result<Self, ParseSemanticVersionError>)
        ensures
            version is Ok <==> semver_version(text@) is Some,
            version matches Ok(v) ==> semver_version(text@) == Some(v.parts()),
    {
        match parse_version(text) {
            Ok((major, minor, patch, pre, build)) => Ok(
                SemanticVersion { major, minor, patch, pre, build },
            ),
            Err(error) => Err(ParseSemanticVersionError(error)),
        }
    }

    /// The major version number.
    pub fn major(&self) -> (major: u64)
        ensures
            major == self.parts().0,
    {
        self.major
    }

    /// The minor version number.
    pub fn minor(&self) -> (minor: u64)
        ensures
            minor == self.parts().1,
    {
        self.minor
    }

    /// The patch version number.
    pub fn patch(&self) -> (patch: u64)
        ensures
            patch == self.parts().2,
    {
        self.patch
    }

    /// Whether this is a prerelease version.
    pub fn is_prerelease(&self) -> (prerelease: bool)
        ensures
            prerelease == (self.parts().3.len() > 0),
    {
        !self.pre.as_str().is_empty()
    }

    /// Compares two versions according to semantic-version precedence.
    ///
    /// Build metadata is ignored, as required by semantic versioning.
    pub fn cmp_precedence(&self, other: &Self) -> (order: Ordering)
        ensures
            order == precedence(self.parts(), other.parts()),
            precedence(other.parts(), self.parts()) == reversed(order),
            order != Ordering::Less ==> forall|w: VersionParts|
                valid_parts(w) && #[trigger] precedence(other.parts(), w) != Ordering::Less
                    ==> precedence(self.parts(), w) != Ordering::Less,
    {
        proof {
            use_type_invariant(self);
            use_type_invariant(other);
        }
        if self.major != other.major {
            return if self.major < other.major {
                Ordering::Less
            } else {
                Ordering::Greater
            };
        }
        if self.minor != other.minor {
            return if self.minor < other.minor {
                Ordering::Less
            } else {
                Ordering::Greater
            };
        }
        if self.patch != other.patch {
            return if self.patch < other.patch {
                Ordering::Less
            } else {
                Ordering::Greater
            };
        }
        let mine = self.pre.as_str();
        let theirs = other.pre.as_str();
        match (mine.is_empty(), theirs.is_empty()) {
            (true, true) => Ordering::Equal,
            (true, false) => Ordering::Greater,
            (false, true) => Ordering::Less,
            (false, false) => {
                let order = compare_prerelease(mine, theirs).unwrap();
                proof {
                    if order != Ordering::Less {
                        assert forall|w: VersionParts|
                            valid_parts(w) && #[trigger] precedence(other.parts(), w)
                                != Ordering::Less implies precedence(self.parts(), w)
                            != Ordering::Less by {
                            if w.0 == self.major && w.1 == self.minor && w.2 == self.patch
                                && w.3.len() > 0 {
                                assert(at_least(prerelease_order(other.pre@, w.3)));
                            }
                        }
                    }
                }
                order
            },
        }
    }

    /// Returns whether this version has greater precedence than `other`.
    pub fn outranks(&self, other: &Self) -> (outranks: bool)
        ensures
            outranks == (precedence(self.parts(), other.parts()) == Ordering::Greater),
            !outranks ==> precedence(other.parts(), self.parts()) != Ordering::Less,
            outranks ==> forall|w: VersionParts|
                valid_parts(w) && #[trigger] precedence(other.parts(), w) != Ordering::Less
                    ==> precedence(self.parts(), w) != Ordering::Less,
    {
        match self.cmp_precedence(other) {
            Ordering::Greater => true,
            _ => false,
        }
    }

    /// The text of this version, as semver writes it.
    pub fn to_text(&self) -> (text: String)
        ensures
            text@ == version_text(self.parts()),
    {
        let mut text = String::new();
        push_decimal(&mut text, self.major);
        push_char(&mut text, '.');
        push_decimal(&mut text, self.minor);
        push_char(&mut text, '.');
        push_decimal(&mut text, self.patch);
        if !self.pre.as_str().is_empty() {
            push_char(&mut text, '-');
            text.append(self.pre.as_str());
        }
        if !self.build.as_str().is_empty() {
            push_char(&mut text, '+');
            text.append(self.build.as_str());
        }
        assert(text@ =~= version_text(self.parts()));
        text
    }
}

} // verus!
