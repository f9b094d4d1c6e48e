//! Declarations of a runtime and of its pallets, and their conversion into
//! the final form in which every pallet has its index and its parts.
//!
//! A runtime is declared as a list of pallets. A pallet may state its index,
//! and else gets the one after the pallet before it; it may state its parts,
//! and may say which of them to use or to leave out. As long as one pallet
//! leaves its parts unstated the declaration is implicit and kept as it is.
//! Otherwise it is converted: indices are assigned and checked for
//! conflicts, names are checked for duplicates, and the parts of each pallet
//! are cut down to those asked for.
//!
//! Names, paths and generics are kept as text.

use std::collections::HashMap;
use vstd::prelude::*;

verus! {

/// The kinds of parts that a pallet can have.
#[derive(Clone, Copy, Debug, PartialEq, Eq, Structural)]
pub enum PalletPartKeyword {
    Pallet,
    Call,
    Storage,
    Event,
    Config,
    Origin,
    Inherent,
    ValidateUnsigned,
}

/// A part of a pallet, as declared.
#[derive(Clone, Debug)]
pub struct PalletPart {
    pub keyword: PalletPartKeyword,
    /// The generics of the part, as written.
    pub generics: String,
}

/// The declaration of a part without its generics.
#[derive(Clone, Debug)]
pub struct PalletPartNoGeneric {
    pub keyword: PalletPartKeyword,
}

/// Which of its parts a pallet is to have.
#[derive(Clone, Debug)]
pub enum SpecifiedParts {
    /// All the pallet's parts except those listed.
    Exclude(Vec<PalletPartNoGeneric>),
    /// Only the listed parts.
    Use(Vec<PalletPartNoGeneric>),
    /// All the pallet's parts.
    All,
}

/// The path of a pallet, e.g. `frame_system` in `System: frame_system`.
#[derive(Clone, Debug)]
pub struct PalletPath {
    pub inner: String,
}

/// The declaration of a pallet.
#[derive(Clone, Debug)]
pub struct PalletDeclaration {
    /// The name of the pallet, e.g. `System` in `System: frame_system`.
    pub name: String,
    /// The index, where the declaration fixes it, e.g. `MyPallet ... = 3,`.
    pub index: Option<u8>,
    /// The path of the pallet.
    pub path: PalletPath,
    /// The instance of the pallet, e.g. `Instance1` in
    /// `Council: pallet_collective::<Instance1>`.
    pub instance: Option<String>,
    /// The declared parts, e.g. `Some([Pallet, Call])` for
    /// `System: system::{Pallet, Call}`, or `None` for `System: system`.
    pub pallet_parts: Option<Vec<PalletPart>>,
    /// The parts to use or to leave out.
    pub specified_parts: SpecifiedParts,
}

/// The final definition of a pallet, with its index and its parts.
#[derive(Clone, Debug)]
pub struct Pallet {
    /// The name of the pallet.
    pub name: String,
    /// The index, stated in the declaration or assigned.
    pub index: u8,
    /// The path of the pallet.
    pub path: PalletPath,
    /// The instance of the pallet.
    pub instance: Option<String>,
    /// The parts that the pallet has.
    pub pallet_parts: Vec<PalletPart>,
}

/// The types that a runtime declaration names after `where`.
#[derive(Clone, Debug)]
pub struct WhereSection {
    pub block: String,
    pub node_block: String,
    pub unchecked_extrinsic: String,
}

/// A runtime declaration in which some pallet leaves its parts unstated.
#[derive(Clone, Debug)]
pub struct ImplicitRuntimeDeclaration {
    pub name: String,
    pub where_section: WhereSection,
    pub pallets: Vec<PalletDeclaration>,
}

/// A runtime declaration in which every pallet has its index and parts.
#[derive(Clone, Debug)]
pub struct ExplicitRuntimeDeclaration {
    pub name: String,
    pub where_section: WhereSection,
    pub pallets: Vec<Pallet>,
}

/// A runtime declaration.
#[derive(Clone, Debug)]
pub enum RuntimeDeclaration {
    Implicit(ImplicitRuntimeDeclaration),
    Explicit(ExplicitRuntimeDeclaration),
}

/// What the conversion of a list of pallet declarations gives.
#[derive(Clone, Debug)]
pub enum PalletsConversion {
    /// The declarations as they were: one of them leaves its parts unstated.
    Implicit(Vec<PalletDeclaration>),
    /// The final definitions, one for each declaration and in their order.
    Explicit(Vec<Pallet>),
}

/// Why a list of pallet declarations cannot be converted.
#[derive(Clone, Debug)]
pub enum ConversionError {
    /// The pallet follows one with index 255 and states no index of its own.
    IndexOverflow { pallet: String },
    /// The pallet `second` has the index of the earlier pallet `first`.
    ConflictingIndices { first: String, second: String, index: u8 },
    /// An earlier pallet has the same name.
    DuplicateName { name: String },
    /// The pallet is told to use or leave out a part that it does not have.
    InvalidPart { pallet: String, part: PalletPartKeyword, available: Vec<PalletPartKeyword> },
}

/// A conversion error as a mathematical value.
pub enum Failure {
    IndexOverflow { pallet: Seq<char> },
    ConflictingIndices { first: Seq<char>, second: Seq<char>, index: u8 },
    DuplicateName { name: Seq<char> },
    InvalidPart { pallet: Seq<char>, part: PalletPartKeyword, available: Seq<PalletPartKeyword> },
}

impl View for ConversionError {
    type V = Failure;

    open spec fn view(&self) -> Failure {
        match *self {
            ConversionError::IndexOverflow { pallet } => Failure::IndexOverflow { pallet: pallet@ },
            ConversionError::ConflictingIndices { first, second, index } => {
                Failure::ConflictingIndices { first: first@, second: second@, index }
            },
            ConversionError::DuplicateName { name } => Failure::DuplicateName { name: name@ },
            ConversionError::InvalidPart { pallet, part, available } => {
                Failure::InvalidPart { pallet: pallet@, part, available: available@ }
            },
        }
    }
}

/// Whether some declaration leaves its parts unstated.
pub open spec fn any_implicit(pallets: Seq<PalletDeclaration>) -> bool {
    exists|k: int| 0 <= k < pallets.len() && (#[trigger] pallets[k]).pallet_parts is None
}

/// The index of the `k`-th pallet: the stated one, and else the index of the
/// pallet before it plus one, or 0 for the first pallet. The result is 256
/// when the pallet before has index 255.
pub open spec fn index_at(pallets: Seq<PalletDeclaration>, k: int) -> int
    decreases k,
{
    match pallets[k].index {
        Some(i) => i as int,
        None => if k <= 0 {
            0
        } else {
            index_at(pallets, k - 1) + 1
        },
    }
}

/// The last pallet before the `k`-th that has the given index, if there is
/// one.
pub open spec fn earlier_with_index(pallets: Seq<PalletDeclaration>, k: int, index: int) -> Option<
    int,
>
    decreases k,
{
    if k <= 0 {
        None
    } else if index_at(pallets, k - 1) == index {
        Some(k - 1)
    } else {
        earlier_with_index(pallets, k - 1, index)
    }
}

/// Whether a pallet before the `k`-th has the given name.
pub open spec fn earlier_with_name(pallets: Seq<PalletDeclaration>, k: int, name: Seq<char>) -> bool {
    exists|j: int| 0 <= j < k && (#[trigger] pallets[j]).name@ == name
}

/// Whether `parts` holds a part of the given kind.
pub open spec fn has_part(parts: Seq<PalletPart>, keyword: PalletPartKeyword) -> bool {
    exists|i: int| 0 <= i < parts.len() && (#[trigger] parts[i]).keyword == keyword
}

/// Whether `listed` names the given kind of part.
pub open spec fn lists_part(listed: Seq<PalletPartNoGeneric>, keyword: PalletPartKeyword) -> bool {
    exists|i: int| 0 <= i < listed.len() && (#[trigger] listed[i]).keyword == keyword
}

/// The kinds of the given parts, in order.
pub open spec fn keywords_of(parts: Seq<PalletPart>) -> Seq<PalletPartKeyword> {
    Seq::new(parts.len(), |i: int| parts[i].keyword)
}

/// The first of the listed kinds that is not among `parts`, if there is one.
pub open spec fn first_missing(listed: Seq<PalletPartNoGeneric>, parts: Seq<PalletPart>) -> Option<
    PalletPartKeyword,
>
    decreases listed.len(),
{
    if listed.len() == 0 {
        None
    } else {
        match first_missing(listed.drop_last(), parts) {
            Some(keyword) => Some(keyword),
            None => if has_part(parts, listed.last().keyword) {
                None
            } else {
                Some(listed.last().keyword)
            },
        }
    }
}

impl SpecifiedParts {
    /// The kinds of parts that are listed, to be used or to be left out.
    pub open spec fn listed(self) -> Seq<PalletPartNoGeneric> {
        match self {
            SpecifiedParts::Exclude(parts) => parts@,
            SpecifiedParts::Use(parts) => parts@,
            SpecifiedParts::All => Seq::empty(),
        }
    }

    /// Whether a part of the given kind stays.
    pub open spec fn keeps(self, keyword: PalletPartKeyword) -> bool {
        match self {
            SpecifiedParts::Exclude(parts) => !lists_part(parts@, keyword),
            SpecifiedParts::Use(parts) => lists_part(parts@, keyword),
            SpecifiedParts::All => true,
        }
    }
}

/// The parts that stay, in their order.
pub open spec fn kept_parts(parts: Seq<PalletPart>, specified: SpecifiedParts) -> Seq<PalletPart>
    decreases parts.len(),
{
    if parts.len() == 0 {
        Seq::empty()
    } else {
        let rest = kept_parts(parts.drop_last(), specified);
        if specified.keeps(parts.last().keyword) {
            rest.push(parts.last())
        } else {
            rest
        }
    }
}

/// Why the `k`-th pallet cannot be converted, if it cannot. The checks are
/// made in this order: the index fits into a byte, no earlier pallet has the
/// index, no earlier pallet has the name, every listed part is one that the
/// pallet has.
pub open spec fn failure_at(pallets: Seq<PalletDeclaration>, k: int) -> Option<Failure> {
    let declaration = pallets[k];
    let index = index_at(pallets, k);
    let parts = declaration.pallet_parts->Some_0@;
    if index > u8::MAX {
        Some(Failure::IndexOverflow { pallet: declaration.name@ })
    } else if earlier_with_index(pallets, k, index) is Some {
        Some(
            Failure::ConflictingIndices {
                first: pallets[earlier_with_index(pallets, k, index)->Some_0].name@,
                second: declaration.name@,
                index: index as u8,
            },
        )
    } else if earlier_with_name(pallets, k, declaration.name@) {
        Some(Failure::DuplicateName { name: declaration.name@ })
    } else if first_missing(declaration.specified_parts.listed(), parts) is Some {
        Some(
            Failure::InvalidPart {
                pallet: declaration.name@,
                part: first_missing(declaration.specified_parts.listed(), parts)->Some_0,
                available: keywords_of(parts),
            },
        )
    } else {
        None
    }
}

/// Why the first `n` pallets cannot be converted, if they cannot: the
/// failure of the first pallet that has one.
pub open spec fn first_failure(pallets: Seq<PalletDeclaration>, n: int) -> Option<Failure>
    decreases n,
{
    if n <= 0 {
        None
    } else {
        match first_failure(pallets, n - 1) {
            Some(failure) => Some(failure),
            None => failure_at(pallets, n - 1),
        }
    }
}

/// The failure of the first pallet that has one is the failure of every
/// longer list.
pub proof fn lemma_first_failure(pallets: Seq<PalletDeclaration>, k: int, n: int)
    requires
        0 <= k < n,
        first_failure(pallets, k) is None,
        failure_at(pallets, k) is Some,
    ensures
        first_failure(pallets, n) == failure_at(pallets, k),
    decreases n,
{
    if n > k + 1 {
        lemma_first_failure(pallets, k, n - 1);
    }
}

/// Whether `pallet` is the final definition of the `k`-th declaration.
pub open spec fn finalizes(pallets: Seq<PalletDeclaration>, k: int, pallet: Pallet) -> bool {
    &&& pallet.name == pallets[k].name
    &&& pallet.index == index_at(pallets, k)
    &&& pallet.path == pallets[k].path
    &&& pallet.instance == pallets[k].instance
    &&& pallet.pallet_parts@ == kept_parts(
        pallets[k].pallet_parts->Some_0@,
        pallets[k].specified_parts,
    )
}

/// What the conversion of `pallets` is to give.
pub open spec fn converts(
    pallets: Vec<PalletDeclaration>,
    r: Result<PalletsConversion, ConversionError>,
) -> bool {
    match r {
        Ok(PalletsConversion::Implicit(same)) => any_implicit(pallets@) && same == pallets,
        Ok(PalletsConversion::Explicit(out)) => {
            &&& !any_implicit(pallets@)
            &&& first_failure(pallets@, pallets@.len() as int) is None
            &&& out@.len() == pallets@.len()
            &&& forall|k: int| 0 <= k < out@.len() ==> finalizes(pallets@, k, #[trigger] out@[k])
        },
        Err(e) => {
            &&& !any_implicit(pallets@)
            &&& first_failure(pallets@, pallets@.len() as int) == Some(e@)
        },
    }
}

/// Whether `parts` holds a part of the given kind.
pub fn contains_part(parts: &Vec<PalletPart>, keyword: PalletPartKeyword) -> (r: bool)
    ensures
        r == has_part(parts@, keyword),
{
    let mut i: usize = 0;
    while i < parts.len()
        invariant
            i <= parts.len(),
            forall|j: int| 0 <= j < i ==> (#[trigger] parts@[j]).keyword != keyword,
        decreases parts.len() - i,
    {
        if parts[i].keyword == keyword {
            return true;
        }
        i += 1;
    }
    false
}

/// Whether `listed` names the given kind of part.
pub fn is_listed(listed: &Vec<PalletPartNoGeneric>, keyword: PalletPartKeyword) -> (r: bool)
    ensures
        r == lists_part(listed@, keyword),
{
    let mut i: usize = 0;
    while i < listed.len()
        invariant
            i <= listed.len(),
            forall|j: int| 0 <= j < i ==> (#[trigger] listed@[j]).keyword != keyword,
        decreases listed.len() - i,
    {
        if listed[i].keyword == keyword {
            return true;
        }
        i += 1;
    }
    false
}

/// The first of the listed kinds that is not among `parts`, if there is one.
pub fn find_missing(listed: &Vec<PalletPartNoGeneric>, parts: &Vec<PalletPart>) -> (r: Option<
    PalletPartKeyword,
>)
    ensures
        r == first_missing(listed@, parts@),
{
    let mut i: usize = 0;
    while i < listed.len()
        invariant
            i <= listed.len(),
            first_missing(listed@.take(i as int), parts@) is None,
        decreases listed.len() - i,
    {
        let keyword = listed[i].keyword;
        proof {
            let next = listed@.take(i + 1);
            assert(next.drop_last() =~= listed@.take(i as int));
        }
        if !contains_part(parts, keyword) {
            proof {
                lemma_first_missing_prefix(listed@, parts@, i + 1);
            }
            return Some(keyword);
        }
        i += 1;
    }
    assert(listed@.take(i as int) =~= listed@);
    None
}

/// A kind that is missing among the first `n` listed is the first missing
/// of the whole list.
pub proof fn lemma_first_missing_prefix(listed: Seq<PalletPartNoGeneric>, parts: Seq<PalletPart>, n: int)
    requires
        0 <= n <= listed.len(),
        first_missing(listed.take(n), parts) is Some,
    ensures
        first_missing(listed, parts) == first_missing(listed.take(n), parts),
    decreases listed.len() - n,
{
    if n < listed.len() {
        let next = listed.take(n + 1);
        assert(next.drop_last() =~= listed.take(n));
        lemma_first_missing_prefix(listed, parts, n + 1);
    } else {
        assert(listed.take(n) =~= listed);
    }
}

impl SpecifiedParts {
    /// Whether a part of the given kind stays.
    pub fn retains(&self, keyword: PalletPartKeyword) -> (r: bool)
        ensures
            r == self.keeps(keyword),
    {
        match self {
            SpecifiedParts::Exclude(parts) => !is_listed(parts, keyword),
            SpecifiedParts::Use(parts) => is_listed(parts, keyword),
            SpecifiedParts::All => true,
        }
    }

    /// The first of the listed kinds that is not among `parts`, if there is
    /// one.
    pub fn missing_among(&self, parts: &Vec<PalletPart>) -> (r: Option<PalletPartKeyword>)
        ensures
            r == first_missing(self.listed(), parts@),
    {
        match self {
            SpecifiedParts::Exclude(listed) => find_missing(listed, parts),
            SpecifiedParts::Use(listed) => find_missing(listed, parts),
            SpecifiedParts::All => None,
        }
    }
}

/// The kinds of the given parts, in order.
pub fn keywords(parts: &Vec<PalletPart>) -> (r: Vec<PalletPartKeyword>)
    ensures
        r@ == keywords_of(parts@),
{
    let mut r: Vec<PalletPartKeyword> = Vec::new();
    let mut i: usize = 0;
    while i < parts.len()
        invariant
            i <= parts.len(),
            r@.len() == i,
            forall|j: int| 0 <= j < i ==> r@[j] == parts@[j].keyword,
        decreases parts.len() - i,
    {
        r.push(parts[i].keyword);
        i += 1;
    }
    r
}

/// The parts that stay, in their order.
pub fn retain_parts(parts: &Vec<PalletPart>, specified: &SpecifiedParts) -> (r: Vec<PalletPart>)
    ensures
        r@ == kept_parts(parts@, *specified),
{
    let mut r: Vec<PalletPart> = Vec::new();
    let mut i: usize = 0;
    while i < parts.len()
        invariant
            i <= parts.len(),
            r@ == kept_parts(parts@.take(i as int), *specified),
        decreases parts.len() - i,
    {
        proof {
            let next = parts@.take(i + 1);
            assert(next.drop_last() =~= parts@.take(i as int));
        }
        if specified.retains(parts[i].keyword) {
            r.push(PalletPart { keyword: parts[i].keyword, generics: parts[i].generics.clone() });
        }
        i += 1;
    }
    assert(parts@.take(i as int) =~= parts@);
    r
}

/// Converts a list of pallet declarations.
///
/// If some declaration leaves its parts unstated, the list comes back as it
/// is. Otherwise every pallet gets its index (the stated one, or the one
/// after the pallet before it, starting at 0) and is left with the parts
/// that its declaration asks for. The conversion fails at the first pallet
/// whose index does not fit into a byte or is taken by an earlier pallet,
/// whose name is that of an earlier pallet, or that is told to use or leave
/// out a part that it does not have.
pub fn convert_pallets(pallets: Vec<PalletDeclaration>) -> (r: Result<
    PalletsConversion,
    ConversionError,
>)
    ensures
        converts(pallets, r),
{
    let mut i: usize = 0;
    while i < pallets.len()
        invariant
            i <= pallets.len(),
            forall|j: int| 0 <= j < i ==> (#[trigger] pallets@[j]).pallet_parts is Some,
        decreases pallets.len() - i,
    {
        if pallets[i].pallet_parts.is_none() {
            return Ok(PalletsConversion::Implicit(pallets));
        }
        i += 1;
    }
    let mut indices: HashMap<u8, usize> = HashMap::new();
    let mut last_index: Option<u8> = None;
    let mut out: Vec<Pallet> = Vec::new();
    let mut k: usize = 0;
    while k < pallets.len()
        invariant
            k <= pallets.len(),
            !any_implicit(pallets@),
            first_failure(pallets@, k as int) is None,
            out@.len() == k,
            forall|j: int| 0 <= j < k ==> finalizes(pallets@, j, #[trigger] out@[j]),
            forall|j: int| 0 <= j < k ==> 0 <= #[trigger] index_at(pallets@, j) <= u8::MAX,
            last_index == (if k == 0 {
                None
            } else {
                Some(index_at(pallets@, k - 1) as u8)
            }),
            forall|index: u8| #[trigger]
                earlier_with_index(pallets@, k as int, index as int) == (if indices@.contains_key(
                    index,
                ) {
                    Some(indices@[index] as int)
                } else {
                    None
                }),
            forall|index: u8| #[trigger]
                indices@.contains_key(index) ==> indices@[index] < k && index_at(
                    pallets@,
                    indices@[index] as int,
                ) == index,
        decreases pallets.len() - k,
    {
        let declaration = &pallets[k];
        let final_index = match declaration.index {
            Some(index) => index,
            None => match last_index {
                None => 0,
                Some(last) => match last.checked_add(1) {
                    Some(index) => index,
                    None => {
                        proof {
                            lemma_first_failure(pallets@, k as int, pallets@.len() as int);
                        }
                        return Err(
                            ConversionError::IndexOverflow { pallet: declaration.name.clone() },
                        );
                    },
                },
            },
        };
        match indices.get(&final_index) {
            Some(earlier) => {
                proof {
                    lemma_first_failure(pallets@, k as int, pallets@.len() as int);
                }
                return Err(
                    ConversionError::ConflictingIndices {
                        first: pallets[*earlier].name.clone(),
                        second: declaration.name.clone(),
                        index: final_index,
                    },
                );
            },
            None => {},
        }
        let mut j: usize = 0;
        while j < k
            invariant
                j <= k,
                k < pallets.len(),
                declaration == pallets@[k as int],
                !any_implicit(pallets@),
                first_failure(pallets@, k as int) is None,
                index_at(pallets@, k as int) <= u8::MAX,
                earlier_with_index(pallets@, k as int, index_at(pallets@, k as int)) is None,
                forall|e: int| 0 <= e < j ==> (#[trigger] pallets@[e]).name@ != declaration.name@,
            decreases k - j,
        {
            if pallets[j].name == declaration.name {
                proof {
                    lemma_first_failure(pallets@, k as int, pallets@.len() as int);
                }
                return Err(ConversionError::DuplicateName { name: declaration.name.clone() });
            }
            j += 1;
        }
        let parts = match &declaration.pallet_parts {
            Some(parts) => parts,
            None => vstd::pervasive::unreached(),
        };
        match declaration.specified_parts.missing_among(parts) {
            Some(part) => {
                proof {
                    lemma_first_failure(pallets@, k as int, pallets@.len() as int);
                }
                return Err(
                    ConversionError::InvalidPart {
                        pallet: declaration.name.clone(),
                        part,
                        available: keywords(parts),
                    },
                );
            },
            None => {},
        }
        let instance = match &declaration.instance {
            Some(instance) => Some(instance.clone()),
            None => None,
        };
        out.push(
            Pallet {
                name: declaration.name.clone(),
                index: final_index,
                path: PalletPath { inner: declaration.path.inner.clone() },
                instance,
                pallet_parts: retain_parts(parts, &declaration.specified_parts),
            },
        );
        proof {
            assert forall|index: u8| #[trigger]
                earlier_with_index(pallets@, k + 1, index as int) == (if indices@.insert(
                    final_index,
                    k,
                ).contains_key(index) {
                    Some(indices@.insert(final_index, k)[index] as int)
                } else {
                    None
                }) by {
                assert(earlier_with_index(pallets@, k as int, index as int) == (
                if indices@.contains_key(index) {
                    Some(indices@[index] as int)
                } else {
                    None
                }));
            }
        }
        indices.insert(final_index, k);
        last_index = Some(final_index);
        k += 1;
    }
    Ok(PalletsConversion::Explicit(out))
}

impl PalletPartKeyword {
    /// The name of the kind, as it is written in a declaration.
    pub open spec fn text(self) -> Seq<char> {
        match self {
            PalletPartKeyword::Pallet => "Pallet"@,
            PalletPartKeyword::Call => "Call"@,
            PalletPartKeyword::Storage => "Storage"@,
            PalletPartKeyword::Event => "Event"@,
            PalletPartKeyword::Config => "Config"@,
            PalletPartKeyword::Origin => "Origin"@,
            PalletPartKeyword::Inherent => "Inherent"@,
            PalletPartKeyword::ValidateUnsigned => "ValidateUnsigned"@,
        }
    }

    /// The name of the kind, as it is written in a declaration.
    pub fn name(&self) -> (r: &'static str)
        ensures
            r@ == self.text(),
    {
        match self {
            PalletPartKeyword::Pallet => "Pallet",
            PalletPartKeyword::Call => "Call",
            PalletPartKeyword::Storage => "Storage",
            PalletPartKeyword::Event => "Event",
            PalletPartKeyword::Config => "Config",
            PalletPartKeyword::Origin => "Origin",
            PalletPartKeyword::Inherent => "Inherent",
            PalletPartKeyword::ValidateUnsigned => "ValidateUnsigned",
        }
    }
}

/// The character for a decimal digit.
pub open spec fn digit_char(d: u8) -> char {
    if d == 0 {
        '0'
    } else if d == 1 {
        '1'
    } else if d == 2 {
        '2'
    } else if d == 3 {
        '3'
    } else if d == 4 {
        '4'
    } else if d == 5 {
        '5'
    } else if d == 6 {
        '6'
    } else if d == 7 {
        '7'
    } else if d == 8 {
        '8'
    } else {
        '9'
    }
}

/// A byte in decimal, without leading zeros.
pub open spec fn decimal(n: u8) -> Seq<char> {
    if n >= 100 {
        seq![digit_char(n / 100), digit_char(n / 10 % 10), digit_char(n % 10)]
    } else if n >= 10 {
        seq![digit_char(n / 10), digit_char(n % 10)]
    } else {
        seq![digit_char(n)]
    }
}

/// The kinds of parts as an error message lists them: each between
/// backquotes, a comma and a space between two of them.
pub open spec fn listing(parts: Seq<PalletPartKeyword>) -> Seq<char>
    decreases parts.len(),
{
    if parts.len() == 0 {
        Seq::empty()
    } else if parts.len() == 1 {
        "`"@ + parts[0].text() + "`"@
    } else {
        listing(parts.drop_last()) + ", `"@ + parts.last().text() + "`"@
    }
}

impl Failure {
    /// The text of the error.
    pub open spec fn message(self) -> Seq<char> {
        match self {
            Failure::IndexOverflow { pallet } => "Pallet index doesn't fit into u8, index is 256"@,
            Failure::ConflictingIndices { first, second, index } => {
                "Pallet indices are conflicting: Both pallets "@ + first + " and "@ + second
                    + " are at index "@ + decimal(index)
            },
            Failure::DuplicateName { name } => "Two pallets with the same name!"@,
            Failure::InvalidPart { pallet, part, available } => {
                "Invalid pallet part specified, the pallet `"@ + pallet + "` doesn't have the `"@
                    + part.text() + "` part. Available parts are: "@ + listing(available) + "."@
            },
        }
    }
}

/// The text of a decimal digit.
fn digit(d: u8) -> (r: &'static str)
    requires
        d < 10,
    ensures
        r@ == seq![digit_char(d)],
{
    proof {
        reveal_strlit("0");
        reveal_strlit("1");
        reveal_strlit("2");
        reveal_strlit("3");
        reveal_strlit("4");
        reveal_strlit("5");
        reveal_strlit("6");
        reveal_strlit("7");
        reveal_strlit("8");
        reveal_strlit("9");
    }
    let r = if d == 0 {
        "0"
    } else if d == 1 {
        "1"
    } else if d == 2 {
        "2"
    } else if d == 3 {
        "3"
    } else if d == 4 {
        "4"
    } else if d == 5 {
        "5"
    } else if d == 6 {
        "6"
    } else if d == 7 {
        "7"
    } else if d == 8 {
        "8"
    } else {
        "9"
    };
    r
}

/// A byte in decimal, without leading zeros.
pub fn decimal_string(n: u8) -> (r: String)
    ensures
        r@ == decimal(n),
{
    let mut r = String::new();
    if n >= 100 {
        r.append(digit(n / 100));
    }
    if n >= 10 {
        r.append(digit(n / 10 % 10));
    }
    r.append(digit(n % 10));
    r
}

/// The kinds of parts as an error message lists them.
pub fn list_parts(parts: &Vec<PalletPartKeyword>) -> (r: String)
    ensures
        r@ == listing(parts@),
{
    let mut r = String::new();
    let mut i: usize = 0;
    while i < parts.len()
        invariant
            i <= parts.len(),
            r@ == listing(parts@.take(i as int)),
        decreases parts.len() - i,
    {
        proof {
            let next = parts@.take(i + 1);
            assert(next.drop_last() =~= parts@.take(i as int));
        }
        if i == 0 {
            r.append("`");
        } else {
            r.append(", `");
        }
        r.append(parts[i].name());
        r.append("`");
        i += 1;
    }
    assert(parts@.take(i as int) =~= parts@);
    r
}

impl ConversionError {
    /// The text of the error.
    pub fn message(&self) -> (r: String)
        ensures
            r@ == self@.message(),
    {
        match self {
            ConversionError::IndexOverflow { pallet } => {
                String::from_str("Pallet index doesn't fit into u8, index is 256")
            },
            ConversionError::ConflictingIndices { first, second, index } => {
                let mut r = String::from_str("Pallet indices are conflicting: Both pallets ");
                r.append(first.as_str());
                r.append(" and ");
                r.append(second.as_str());
                r.append(" are at index ");
                r.append(decimal_string(*index).as_str());
                r
            },
            ConversionError::DuplicateName { name } => {
                String::from_str("Two pallets with the same name!")
            },
            ConversionError::InvalidPart { pallet, part, available } => {
                let mut r = String::from_str("Invalid pallet part specified, the pallet `");
                r.append(pallet.as_str());
                r.append("` doesn't have the `");
                r.append(part.name());
                r.append("` part. Available parts are: ");
                r.append(list_parts(available).as_str());
                r.append(".");
                r
            },
        }
    }
}

impl RuntimeDeclaration {
    /// The declaration of the runtime `name` with the given pallets: implicit
    /// where a pallet leaves its parts unstated, and else explicit, with the
    /// pallets converted.
    pub fn new(name: String, where_section: WhereSection, pallets: Vec<PalletDeclaration>) -> (r:
        Result<RuntimeDeclaration, ConversionError>)
        ensures
            match r {
                Ok(RuntimeDeclaration::Implicit(declaration)) => {
                    &&& declaration.name == name
                    &&& declaration.where_section == where_section
                    &&& converts(pallets, Ok(PalletsConversion::Implicit(declaration.pallets)))
                },
                Ok(RuntimeDeclaration::Explicit(declaration)) => {
                    &&& declaration.name == name
                    &&& declaration.where_section == where_section
                    &&& converts(pallets, Ok(PalletsConversion::Explicit(declaration.pallets)))
                },
                Err(e) => converts(pallets, Err(e)),
            },
    {
        match convert_pallets(pallets) {
            Ok(PalletsConversion::Implicit(pallets)) => Ok(
                RuntimeDeclaration::Implicit(
                    ImplicitRuntimeDeclaration { name, where_section, pallets },
                ),
            ),
            Ok(PalletsConversion::Explicit(pallets)) => Ok(
                RuntimeDeclaration::Explicit(
                    ExplicitRuntimeDeclaration { name, where_section, pallets },
                ),
            ),
            Err(e) => Err(e),
        }
    }
}

} // verus!
