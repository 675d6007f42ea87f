//! The repository of spells: it answers with the list of all spells from the local store
//! while the store is fresh, from the remote source otherwise, and from what the store
//! still has when the source fails; it narrows a list by level and class, and selects from
//! it at random or by name.

use crate::local_datasource::{batch_of, holds_key, stored, touched, LocalDatasource};
use crate::spell_model::{
    class_view, classes_view, clone_spells, shown, spell_from_spells_query_spells, spells_view,
    text_or_empty, text_view, texts_view, ClassView, ShownSpell, Spell, SpellView,
    SpellsQuerySpells, SpellsQuerySpellsClasses,
};
use crate::spells_datasource::{SpellsDataSource, SpellsDataSourceError};
use crate::text::{lowercase_text, to_lowercase, trim, trimmed_text};
use rand::seq::SliceRandom;
use vstd::prelude::*;
use vstd::string::StringExecFns;

verus! {

/// The key under which the list of all spells is stored.
pub const SPELL_KEY: u8 = 0;

/// The number of keys that the store of a repository holds.
pub const CACHE_CAPACITY: usize = 2;

/// The milliseconds for which a stored list stays fresh where no other time is given.
pub const DEFAULT_CACHE_TIME: u64 = 1000;

/// What the local store lacks.
#[derive(Debug, PartialEq, Eq)]
pub enum LocalSpellsDataSourceError {
    /// No list is stored.
    CacheEmpty,
    /// No list is stored that is still fresh.
    RecentCacheEmpty,
}

/// Why no spell was returned.
#[derive(Debug, PartialEq, Eq)]
pub enum SpellError {
    /// Nothing is left of the list after filtering or selection.
    NoSpellsFound,
    /// The remote source failed, and the local store has no list to fall back on.
    DataSourceError(SpellsDataSourceError),
    /// The local store alone was asked, and lacks the list.
    LocalDataSourceError(LocalSpellsDataSourceError),
}

/// The filters of a retrieval: bounds on the level, both inclusive, and the classes of
/// which a spell must have one, by name or by index.
#[derive(Debug, PartialEq, Eq)]
pub struct SpellRepositoryFilters {
    pub min_level: Option<i64>,
    pub max_level: Option<i64>,
    pub classes: Option<Vec<String>>,
}

/// What filters hold.
pub struct FiltersView {
    pub min_level: Option<i64>,
    pub max_level: Option<i64>,
    pub classes: Option<Seq<Seq<char>>>,
}

impl View for SpellRepositoryFilters {
    type V = FiltersView;

    open spec fn view(&self) -> FiltersView {
        FiltersView {
            min_level: self.min_level,
            max_level: self.max_level,
            classes: match self.classes {
                Some(classes) => Some(texts_view(classes@)),
                None => None,
            },
        }
    }
}

/// `class` is there and has `wanted` as its name or as its index, letter for letter.
pub open spec fn class_answers(class: Option<ClassView>, wanted: Seq<char>) -> bool {
    match class {
        Some(c) => c.name == Some(wanted) || c.index == Some(wanted),
        None => false,
    }
}

/// `class` answers to one of `wanted`.
pub open spec fn class_among(class: Option<ClassView>, wanted: Seq<Seq<char>>) -> bool {
    exists|j: int| 0 <= j < wanted.len() && class_answers(class, #[trigger] wanted[j])
}

/// One of the classes of `spell` answers to one of `wanted`.
pub open spec fn has_class(spell: SpellView, wanted: Seq<Seq<char>>) -> bool {
    &&& spell.classes is Some
    &&& one_among(spell.classes->Some_0, wanted)
}

/// One of `classes` answers to one of `wanted`.
pub open spec fn one_among(classes: Seq<Option<ClassView>>, wanted: Seq<Seq<char>>) -> bool {
    exists|i: int| 0 <= i < classes.len() && class_among(#[trigger] classes[i], wanted)
}

/// `spell` passes `filters`: its level is within the bounds that are set, and it has one of
/// the classes if classes are set.
pub open spec fn passes(spell: SpellView, filters: FiltersView) -> bool {
    &&& match filters.max_level {
        Some(level) => spell.level <= level,
        None => true,
    }
    &&& match filters.min_level {
        Some(level) => spell.level >= level,
        None => true,
    }
    &&& match filters.classes {
        Some(classes) => has_class(spell, classes),
        None => true,
    }
}

/// Filters whose two bounds are the same level pass the spells of exactly that level.
pub proof fn law_exact_level(spell: SpellView, filters: FiltersView, level: i64)
    requires
        filters.min_level == Some(level),
        filters.max_level == Some(level),
    ensures
        passes(spell, filters) ==> spell.level == level,
        spell.level == level && filters.classes is None ==> passes(spell, filters),
{
}

/// The spells of `spells` that pass `filters`, in their order.
pub open spec fn narrowed(spells: Seq<SpellView>, filters: FiltersView) -> Seq<SpellView> {
    spells.filter(|spell: SpellView| passes(spell, filters))
}

/// The form in which names are compared: lower case, without white space around it.
pub open spec fn normal_form(text: Seq<char>) -> Seq<char> {
    trimmed_text(lowercase_text(text))
}

/// The name and the index of `spell` in the form in which they are compared, each the
/// empty text where the record has none.
pub open spec fn name_keys(spell: SpellView) -> (Seq<char>, Seq<char>) {
    (normal_form(text_or_empty(spell.name)), normal_form(text_or_empty(spell.index)))
}

/// The keys of every spell of `spells`, in order.
pub open spec fn all_name_keys(spells: Seq<SpellView>) -> Seq<(Seq<char>, Seq<char>)> {
    spells.map_values(|spell: SpellView| name_keys(spell))
}

/// One of the two `keys` is `query`.
pub open spec fn key_matches(keys: (Seq<char>, Seq<char>), query: Seq<char>) -> bool {
    keys.0 == query || keys.1 == query
}

/// `at` is the first place among `keys` where one of the two keys is `query`.
pub open spec fn first_match_at(keys: Seq<(Seq<char>, Seq<char>)>, query: Seq<char>, at: int)
    -> bool {
    &&& 0 <= at < keys.len()
    &&& key_matches(keys[at], query)
    &&& forall|j: int| 0 <= j < at ==> !key_matches(#[trigger] keys[j], query)
}

/// What a list of pairs of keys holds.
pub open spec fn keys_view(keys: Seq<(String, String)>) -> Seq<(Seq<char>, Seq<char>)> {
    keys.map_values(|pair: (String, String)| (pair.0@, pair.1@))
}

/// Brings `text` into the form in which names are compared.
pub fn normalize(text: &str) -> (normal: String)
    ensures
        normal@ == normal_form(text@),
{
    let lowered = to_lowercase(text);
    let trimmed = trim(lowered.as_str());
    String::from_str(trimmed)
}

/// The first place among `keys` where one of the two keys is `query`.
pub fn first_match(keys: &Vec<(String, String)>, query: &String) -> (found: Option<usize>)
    ensures
        match found {
            Some(at) => first_match_at(keys_view(keys@), query@, at as int),
            None => forall|j: int|
                0 <= j < keys@.len() ==> !key_matches(#[trigger] keys_view(keys@)[j], query@),
        },
{
    let mut at: usize = 0;
    while at < keys.len()
        invariant
            at <= keys.len(),
            forall|j: int| 0 <= j < at ==> !key_matches(#[trigger] keys_view(keys@)[j], query@),
        decreases keys.len() - at,
    {
        assert(keys_view(keys@)[at as int] == (keys@[at as int].0@, keys@[at as int].1@));
        if keys[at].0 == *query || keys[at].1 == *query {
            return Some(at);
        }
        at = at + 1;
    }
    None
}

/// The text of `text` in the form in which names are compared.
fn normal_key(text: &Option<String>) -> (key: String)
    ensures
        key@ == normal_form(text_or_empty(text_view(*text))),
{
    match text {
        Some(text) => normalize(text.as_str()),
        None => {
            let empty = String::new();
            normalize(empty.as_str())
        },
    }
}

/// Calls `SliceRandom::choose` with the random numbers of the thread, and copies the spell
/// that it chose: none of an empty list, else one of the list. Which one, chance decides.
#[verifier::external_body]
fn choose_spell(spells: &Vec<SpellsQuerySpells>) -> (chosen: Option<SpellsQuerySpells>)
    ensures
        spells@.len() == 0 ==> chosen is None,
        spells@.len() != 0 ==> chosen is Some,
        chosen is Some ==> spells_view(spells@).contains(chosen->Some_0@),
{
    spells.choose(&mut rand::thread_rng()).cloned()
}

/// A spell of `spells`, chosen at random; `NoSpellsFound` of an empty list.
pub fn random_spell(spells: &Vec<SpellsQuerySpells>) -> (chosen: Result<
    SpellsQuerySpells,
    SpellError,
>)
    ensures
        spells@.len() == 0 ==> chosen == Err::<SpellsQuerySpells, SpellError>(
            SpellError::NoSpellsFound,
        ),
        spells@.len() > 0 ==> chosen is Ok && spells_view(spells@).contains(chosen->Ok_0@),
{
    match choose_spell(spells) {
        Some(spell) => Ok(spell),
        None => Err(SpellError::NoSpellsFound),
    }
}

/// The first spell of `spells` whose name or index is `name`, both sides compared in
/// lower case and without the white space around them; `NoSpellsFound` where there is
/// none. A name or an index that a record lacks counts as the empty text.
pub fn spell_by_name(spells: &Vec<SpellsQuerySpells>, name: &str) -> (found: Result<
    SpellsQuerySpells,
    SpellError,
>)
    ensures
        match found {
            Ok(spell) => exists|at: int|
                {
                    &&& #[trigger] first_match_at(
                        all_name_keys(spells_view(spells@)),
                        normal_form(name@),
                        at,
                    )
                    &&& spell@ == spells@[at]@
                },
            Err(error) => {
                &&& error == SpellError::NoSpellsFound
                &&& forall|j: int|
                    0 <= j < spells@.len() ==> !key_matches(
                        name_keys(#[trigger] spells@[j]@),
                        normal_form(name@),
                    )
            },
        },
{
    let query = normalize(name);
    let mut keys: Vec<(String, String)> = Vec::new();
    let mut i: usize = 0;
    while i < spells.len()
        invariant
            i <= spells.len(),
            keys@.len() == i,
            forall|k: int|
                0 <= k < i ==> (#[trigger] keys_view(keys@)[k]) == name_keys(spells@[k]@),
        decreases spells.len() - i,
    {
        let ghost before = keys@;
        let pair = (normal_key(&spells[i].name), normal_key(&spells[i].index));
        keys.push(pair);
        assert forall|k: int| 0 <= k < i + 1 implies (#[trigger] keys_view(keys@)[k]) == name_keys(
            spells@[k]@,
        ) by {
            if k < i {
                assert(keys_view(before)[k] == name_keys(spells@[k]@));
                assert(keys@[k] == before[k]);
            }
        }
        i = i + 1;
    }
    assert(keys_view(keys@) =~= all_name_keys(spells_view(spells@)));
    match first_match(&keys, &query) {
        Some(at) => {
            let spell = spells[at].clone();
            assert(first_match_at(
                all_name_keys(spells_view(spells@)),
                normal_form(name@),
                at as int,
            ));
            Ok(spell)
        },
        None => {
            assert forall|j: int| 0 <= j < spells@.len() implies !key_matches(
                name_keys(#[trigger] spells@[j]@),
                normal_form(name@),
            ) by {
                assert(keys_view(keys@)[j] == name_keys(spells@[j]@));
            }
            Err(SpellError::NoSpellsFound)
        },
    }
}

/// Whether `class` answers to one of `wanted`.
pub fn class_is_among(class: &Option<SpellsQuerySpellsClasses>, wanted: &[String]) -> (among: bool)
    ensures
        among == class_among(class_view(*class), texts_view(wanted@)),
{
    match class {
        None => false,
        Some(c) => {
            let mut j: usize = 0;
            while j < wanted.len()
                invariant
                    j <= wanted.len(),
                    *class == Some(*c),
                    forall|k: int|
                        0 <= k < j ==> !class_answers(
                            class_view(*class),
                            #[trigger] texts_view(wanted@)[k],
                        ),
                decreases wanted.len() - j,
            {
                let by_name = match &c.name {
                    Some(name) => *name == wanted[j],
                    None => false,
                };
                let by_index = match &c.index {
                    Some(index) => *index == wanted[j],
                    None => false,
                };
                assert(texts_view(wanted@)[j as int] == wanted@[j as int]@);
                if by_name || by_index {
                    return true;
                }
                j = j + 1;
            }
            false
        },
    }
}

/// The filters for a level and classes as a caller gives them: the level is the greatest
/// that passes, or the only one where `exact_level` is set; no classes at all means that
/// every class passes.
pub open spec fn filters_for(level: Option<i64>, classes: Vec<String>, exact_level: bool)
    -> SpellRepositoryFilters {
    SpellRepositoryFilters {
        min_level: if exact_level {
            level
        } else {
            None
        },
        max_level: level,
        classes: if classes@.len() == 0 {
            None
        } else {
            Some(classes)
        },
    }
}

impl SpellRepositoryFilters {
    /// The filters for a level and classes as a caller gives them.
    pub fn new(level: Option<i64>, classes: Vec<String>, exact_level: bool) -> (filters:
        SpellRepositoryFilters)
        ensures
            filters == filters_for(level, classes, exact_level),
    {
        let min_level = if exact_level {
            level
        } else {
            None
        };
        let classes = if classes.len() == 0 {
            None
        } else {
            Some(classes)
        };
        SpellRepositoryFilters { min_level, max_level: level, classes }
    }
}

/// What a caller asks of the repository: the spell of a name, a spell chosen at random
/// among those that pass filters, or all spells that pass filters.
#[derive(Debug, PartialEq, Eq)]
pub enum SpellRequest {
    ByName(String),
    Random(SpellRepositoryFilters),
    All(SpellRepositoryFilters),
}

impl SpellRequest {
    /// The request that the arguments of a caller make: a name asks for the spell of that
    /// name, whatever else is given; without a name, `random` asks for one spell, and
    /// nothing asks for all of them.
    pub fn new(
        name: Option<String>,
        random: bool,
        level: Option<i64>,
        classes: Vec<String>,
        exact_level: bool,
    ) -> (request: SpellRequest)
        ensures
            request == (match name {
                Some(name) => SpellRequest::ByName(name),
                None => if random {
                    SpellRequest::Random(filters_for(level, classes, exact_level))
                } else {
                    SpellRequest::All(filters_for(level, classes, exact_level))
                },
            }),
    {
        match name {
            Some(name) => SpellRequest::ByName(name),
            None => {
                let filters = SpellRepositoryFilters::new(level, classes, exact_level);
                if random {
                    SpellRequest::Random(filters)
                } else {
                    SpellRequest::All(filters)
                }
            },
        }
    }
}

/// What the permanent read of the list of all spells does to the store, and what it
/// gives. A list that the permanent part holds is given, and is then its most recently
/// used. Where the permanent part has lost the list, the list of the timed part is given,
/// if that part holds one that has not expired, and the permanent part then holds it
/// again. Else nothing is given, whatever the error says, and the store is as it was.
pub open spec fn permanent_read(
    before: LocalDatasource,
    after: LocalDatasource,
    held: Result<Seq<SpellView>, SpellError>,
) -> bool {
    &&& holds_key(before.permanent(), SPELL_KEY) ==> {
        &&& held is Ok
        &&& Some(held->Ok_0) == batch_of(before.permanent(), SPELL_KEY)
        &&& after.permanent() == touched(before.permanent(), SPELL_KEY)
    }
    &&& !holds_key(before.permanent(), SPELL_KEY) ==> match held {
        Ok(spells) => {
            &&& batch_of(before.timed(), SPELL_KEY) == Some(spells)
            &&& after.permanent() == stored(
                before.permanent(),
                SPELL_KEY,
                spells,
                before.capacity(),
            )
        },
        Err(_) => after.permanent() == before.permanent(),
    }
    &&& !holds_key(before.permanent(), SPELL_KEY) && !holds_key(before.timed(), SPELL_KEY)
        ==> held is Err
    &&& held is Ok ==> batch_of(after.permanent(), SPELL_KEY) == Some(held->Ok_0)
}

/// What a retrieval of the list of all spells may do to the store, and what it then
/// returns. A list is returned in one of four ways. It is the fresh list of the store,
/// and the store is as it was. Or it was fetched, and the store holds it under
/// `SPELL_KEY` in both parts. Or the fetch failed, and it is the list that the permanent
/// part of the store had, which is now its most recently used. Or the fetch failed, the
/// permanent part had lost the list, and it is the list of the timed part, which the
/// permanent part now holds again. An error is returned only where the permanent part of
/// the store has no list; it is the failure of the source, and the store is as it was.
pub open spec fn retrieval(
    before: LocalDatasource,
    after: LocalDatasource,
    all: Result<Seq<SpellView>, SpellError>,
) -> bool {
    match all {
        Ok(spells) => {
            ||| {
                &&& after == before
                &&& batch_of(before.timed(), SPELL_KEY) == Some(spells)
            }
            ||| {
                &&& after.permanent() == stored(
                    before.permanent(),
                    SPELL_KEY,
                    spells,
                    before.capacity(),
                )
                &&& batch_of(after.permanent(), SPELL_KEY) == Some(spells)
                &&& batch_of(after.timed(), SPELL_KEY) == Some(spells)
            }
            ||| {
                &&& after.timed() == before.timed()
                &&& batch_of(before.permanent(), SPELL_KEY) == Some(spells)
                &&& after.permanent() == touched(before.permanent(), SPELL_KEY)
                &&& batch_of(after.permanent(), SPELL_KEY) == Some(spells)
            }
            ||| {
                &&& after.timed() == before.timed()
                &&& !holds_key(before.permanent(), SPELL_KEY)
                &&& batch_of(before.timed(), SPELL_KEY) == Some(spells)
                &&& after.permanent() == stored(
                    before.permanent(),
                    SPELL_KEY,
                    spells,
                    before.capacity(),
                )
                &&& batch_of(after.permanent(), SPELL_KEY) == Some(spells)
            }
        },
        Err(error) => {
            &&& error matches SpellError::DataSourceError(_)
            &&& !holds_key(before.permanent(), SPELL_KEY)
            &&& after.permanent() == before.permanent()
            &&& after.timed() == before.timed()
        },
    }
}

/// A result of a retrieval with its list taken by its view.
pub open spec fn listed(all: Result<Vec<SpellsQuerySpells>, SpellError>) -> Result<
    Seq<SpellView>,
    SpellError,
> {
    match all {
        Ok(spells) => Ok(spells_view(spells@)),
        Err(error) => Err(error),
    }
}

/// A result with its spell taken by its view.
pub open spec fn one(found: Result<SpellsQuerySpells, SpellError>) -> Result<
    SpellView,
    SpellError,
> {
    match found {
        Ok(spell) => Ok(spell@),
        Err(error) => Err(error),
    }
}

/// `chosen` is a selection at random from the spells of `all` that pass `filters`: one
/// of them, or `NoSpellsFound` where none passes.
pub open spec fn random_selection(
    all: Seq<SpellView>,
    filters: FiltersView,
    chosen: Result<SpellView, SpellError>,
) -> bool {
    match chosen {
        Ok(spell) => narrowed(all, filters).contains(spell),
        Err(error) => error == SpellError::NoSpellsFound && narrowed(all, filters).len() == 0,
    }
}

/// `found` is the selection by `name` from `all`: the first spell whose name or index is
/// `name` in the form in which names are compared, or `NoSpellsFound` where there is none.
pub open spec fn name_selection(
    all: Seq<SpellView>,
    name: Seq<char>,
    found: Result<SpellView, SpellError>,
) -> bool {
    match found {
        Ok(spell) => exists|at: int|
            #[trigger] first_match_at(all_name_keys(all), normal_form(name), at) && spell
                == all[at],
        Err(error) => {
            &&& error == SpellError::NoSpellsFound
            &&& forall|j: int|
                0 <= j < all.len() ==> !key_matches(
                    name_keys(#[trigger] all[j]),
                    normal_form(name),
                )
        },
    }
}

/// `kept` is the selection by `filters` from `all`: the spells that pass, in their order,
/// or `NoSpellsFound` where none passes.
pub open spec fn filter_selection(
    all: Seq<SpellView>,
    filters: FiltersView,
    kept: Result<Seq<SpellView>, SpellError>,
) -> bool {
    match kept {
        Ok(spells) => spells == narrowed(all, filters) && spells.len() > 0,
        Err(error) => error == SpellError::NoSpellsFound && narrowed(all, filters).len() == 0,
    }
}

/// A retrieval took the store from `before` to `after`, and `chosen` was selected at
/// random from the list that it gave; or the retrieval failed with the error of `chosen`.
pub open spec fn random_outcome(
    before: LocalDatasource,
    after: LocalDatasource,
    filters: FiltersView,
    chosen: Result<SpellView, SpellError>,
) -> bool {
    ||| exists|all: Seq<SpellView>|
        #[trigger] retrieval(before, after, Ok(all)) && random_selection(all, filters, chosen)
    ||| chosen is Err && retrieval(before, after, Err(chosen->Err_0))
}

/// A retrieval took the store from `before` to `after`, and `found` was selected by `name`
/// from the list that it gave; or the retrieval failed with the error of `found`.
pub open spec fn by_name_outcome(
    before: LocalDatasource,
    after: LocalDatasource,
    name: Seq<char>,
    found: Result<SpellView, SpellError>,
) -> bool {
    ||| exists|all: Seq<SpellView>|
        #[trigger] retrieval(before, after, Ok(all)) && name_selection(all, name, found)
    ||| found is Err && retrieval(before, after, Err(found->Err_0))
}

/// A retrieval took the store from `before` to `after`, and `kept` was selected by
/// `filters` from the list that it gave; or the retrieval failed with the error of `kept`.
pub open spec fn filtered_outcome(
    before: LocalDatasource,
    after: LocalDatasource,
    filters: FiltersView,
    kept: Result<Seq<SpellView>, SpellError>,
) -> bool {
    ||| exists|all: Seq<SpellView>|
        #[trigger] retrieval(before, after, Ok(all)) && filter_selection(all, filters, kept)
    ||| kept is Err && retrieval(before, after, Err(kept->Err_0))
}

/// A result with its spells as they are shown.
pub open spec fn shown_all(answer: Result<Vec<Spell>, SpellError>) -> Result<
    Seq<ShownSpell>,
    SpellError,
> {
    match answer {
        Ok(spells) => Ok(spells@.map_values(|spell: Spell| spell@)),
        Err(error) => Err(error),
    }
}

/// One spell or none, as it is shown.
pub open spec fn shown_one(found: Result<SpellView, SpellError>) -> Result<
    Seq<ShownSpell>,
    SpellError,
> {
    match found {
        Ok(spell) => Ok(seq![shown(spell)]),
        Err(error) => Err(error),
    }
}

/// A list of spells or none, as they are shown.
pub open spec fn shown_many(kept: Result<Seq<SpellView>, SpellError>) -> Result<
    Seq<ShownSpell>,
    SpellError,
> {
    match kept {
        Ok(spells) => Ok(spells.map_values(|spell: SpellView| shown(spell))),
        Err(error) => Err(error),
    }
}

/// The repository of spells over a remote source.
pub struct SpellRepository<T: SpellsDataSource> {
    pub datasource: T,
    pub local_datasource: LocalDatasource,
}

/// What the fresh read of the store means for a retrieval: a list that is fresh is the
/// answer, and the remote source is not asked; without one, `RecentCacheEmpty` says that
/// the source has to be asked.
pub fn serve_recent(recent: Option<Vec<SpellsQuerySpells>>) -> (served: Result<
    Vec<SpellsQuerySpells>,
    SpellError,
>)
    ensures
        match recent {
            Some(spells) => served == Ok::<Vec<SpellsQuerySpells>, SpellError>(spells),
            None => served == Err::<Vec<SpellsQuerySpells>, SpellError>(
                SpellError::LocalDataSourceError(LocalSpellsDataSourceError::RecentCacheEmpty),
            ),
        },
{
    match recent {
        Some(spells) => Ok(spells),
        None => Err(SpellError::LocalDataSourceError(LocalSpellsDataSourceError::RecentCacheEmpty)),
    }
}

impl<T: SpellsDataSource> SpellRepository<T> {
    /// The store of the repository is in order.
    pub open spec fn wf(&self) -> bool {
        self.local_datasource.wf()
    }

    /// A repository over `datasource` with an empty store, in which a list stays fresh for
    /// `cache_time` milliseconds.
    pub fn new(datasource: T, cache_time: Option<u64>) -> (repository: SpellRepository<T>)
        ensures
            repository.wf(),
            repository.datasource == datasource,
            repository.local_datasource.capacity() == CACHE_CAPACITY,
            repository.local_datasource.permanent() == Seq::<(u8, Seq<SpellView>)>::empty(),
            repository.local_datasource.timed() == Seq::<(u8, Seq<SpellView>)>::empty(),
    {
        let cache_time = match cache_time {
            Some(time) => time,
            None => DEFAULT_CACHE_TIME,
        };
        let local_datasource = LocalDatasource::new(CACHE_CAPACITY, cache_time);
        SpellRepository { datasource, local_datasource }
    }

    /// The list of the store if it is still fresh.
    pub fn get_spells_from_recent_local_datasource(&self) -> (recent: Result<
        Vec<SpellsQuerySpells>,
        SpellError,
    >)
        ensures
            match recent {
                Ok(spells) => batch_of(self.local_datasource.timed(), SPELL_KEY) == Some(
                    spells_view(spells@),
                ),
                Err(error) => error == SpellError::LocalDataSourceError(
                    LocalSpellsDataSourceError::RecentCacheEmpty,
                ),
            },
    {
        serve_recent(self.local_datasource.get_recent(SPELL_KEY))
    }

    /// The list of the store, however old.
    pub fn get_spells_from_local_datasource(&mut self) -> (held: Result<
        Vec<SpellsQuerySpells>,
        SpellError,
    >)
        requires
            old(self).wf(),
        ensures
            final(self).wf(),
            final(self).datasource == old(self).datasource,
            final(self).local_datasource.capacity() == old(self).local_datasource.capacity(),
            final(self).local_datasource.timed() == old(self).local_datasource.timed(),
            permanent_read(old(self).local_datasource, final(self).local_datasource, listed(held)),
            held is Err ==> held == Err::<Vec<SpellsQuerySpells>, SpellError>(
                SpellError::LocalDataSourceError(LocalSpellsDataSourceError::CacheEmpty),
            ),
    {
        match self.local_datasource.get(SPELL_KEY) {
            Some(spells) => Ok(spells),
            None => Err(SpellError::LocalDataSourceError(LocalSpellsDataSourceError::CacheEmpty)),
        }
    }

    /// Asks the remote source once. What is returned is what the source answered: a
    /// result that `get_all_spells` of this source may give for it.
    pub fn get_spells_from_datasource(&self) -> (fetched: Result<
        Vec<SpellsQuerySpells>,
        SpellsDataSourceError,
    >)
        ensures
            call_ensures(T::get_all_spells, (&self.datasource,), fetched),
    {
        self.datasource.get_all_spells()
    }

    /// Stores a copy of `spells` as the list of all spells.
    pub fn cache_spells(&mut self, spells: &Vec<SpellsQuerySpells>)
        requires
            old(self).wf(),
        ensures
            final(self).wf(),
            final(self).datasource == old(self).datasource,
            final(self).local_datasource.capacity() == old(self).local_datasource.capacity(),
            final(self).local_datasource.permanent() == stored(
                old(self).local_datasource.permanent(),
                SPELL_KEY,
                spells_view(spells@),
                old(self).local_datasource.capacity(),
            ),
            batch_of(final(self).local_datasource.permanent(), SPELL_KEY) == Some(
                spells_view(spells@),
            ),
            batch_of(final(self).local_datasource.timed(), SPELL_KEY) == Some(
                spells_view(spells@),
            ),
    {
        let cache_spells = clone_spells(spells);
        self.local_datasource.insert(cache_spells, SPELL_KEY);
    }

    /// Ends a retrieval for which the remote source was asked and answered `fetched`. A
    /// list that was fetched is stored and returned. After a failure the list that the
    /// store still has is returned, however old; the failure is returned only where the
    /// store has none.
    pub fn settle_fetch(
        &mut self,
        fetched: Result<Vec<SpellsQuerySpells>, SpellsDataSourceError>,
    ) -> (settled: Result<Vec<SpellsQuerySpells>, SpellError>)
        requires
            old(self).wf(),
        ensures
            final(self).wf(),
            final(self).datasource == old(self).datasource,
            final(self).local_datasource.capacity() == old(self).local_datasource.capacity(),
            match fetched {
                Ok(spells) => {
                    &&& settled == Ok::<Vec<SpellsQuerySpells>, SpellError>(spells)
                    &&& final(self).local_datasource.permanent() == stored(
                        old(self).local_datasource.permanent(),
                        SPELL_KEY,
                        spells_view(spells@),
                        old(self).local_datasource.capacity(),
                    )
                    &&& batch_of(final(self).local_datasource.permanent(), SPELL_KEY) == Some(
                        spells_view(spells@),
                    )
                    &&& batch_of(final(self).local_datasource.timed(), SPELL_KEY) == Some(
                        spells_view(spells@),
                    )
                },
                Err(failure) => {
                    &&& final(self).local_datasource.timed() == old(
                        self,
                    ).local_datasource.timed()
                    &&& permanent_read(
                        old(self).local_datasource,
                        final(self).local_datasource,
                        listed(settled),
                    )
                    &&& settled is Err ==> settled == Err::<Vec<SpellsQuerySpells>, SpellError>(
                        SpellError::DataSourceError(failure),
                    )
                },
            },
    {
        match fetched {
            Ok(spells) => {
                self.cache_spells(&spells);
                Ok(spells)
            },
            Err(failure) => match self.get_spells_from_local_datasource() {
                Ok(spells) => Ok(spells),
                Err(_) => Err(SpellError::DataSourceError(failure)),
            },
        }
    }

    /// The list of all spells: the list of the store while it is fresh, and the remote
    /// source is then not asked; else what one request to the source gives, settled as
    /// `settle_fetch` says.
    pub fn get_all_spells_and_cache(&mut self) -> (all: Result<Vec<SpellsQuerySpells>, SpellError>)
        requires
            old(self).wf(),
        ensures
            final(self).wf(),
            final(self).datasource == old(self).datasource,
            final(self).local_datasource.capacity() == old(self).local_datasource.capacity(),
            retrieval(old(self).local_datasource, final(self).local_datasource, listed(all)),
    {
        match self.get_spells_from_recent_local_datasource() {
            Ok(spells) => Ok(spells),
            Err(_) => {
                let fetched = self.get_spells_from_datasource();
                self.settle_fetch(fetched)
            },
        }
    }

    /// Whether one of the classes of `spell` answers to one of `classes`.
    pub fn filter_spell_for_classes(&self, spell: &SpellsQuerySpells, classes: &[String]) -> (has: bool)
        ensures
            has == has_class(spell@, texts_view(classes@)),
    {
        match &spell.classes {
            None => false,
            Some(given) => {
                let mut i: usize = 0;
                while i < given.len()
                    invariant
                        i <= given.len(),
                        spell.classes == Some(*given),
                        forall|k: int|
                            0 <= k < i ==> !class_among(
                                #[trigger] classes_view(given@)[k],
                                texts_view(classes@),
                            ),
                    decreases given.len() - i,
                {
                    assert(classes_view(given@)[i as int] == class_view(given@[i as int]));
                    if class_is_among(&given[i], classes) {
                        proof {
                            let held = classes_view(given@);
                            let wanted = texts_view(classes@);
                            assert(spell@.classes == Some(held));
                            assert(0 <= i < held.len());
                            assert(class_among(held[i as int], wanted));
                            assert(one_among(held, wanted));
                        }
                        return true;
                    }
                    i = i + 1;
                }
                false
            },
        }
    }

    /// Whether `spell` passes `filters`.
    pub fn spell_passes(&self, spell: &SpellsQuerySpells, filters: &SpellRepositoryFilters) -> (pass: bool)
        ensures
            pass == passes(spell@, filters@),
    {
        let below = match filters.max_level {
            Some(level) => spell.level <= level,
            None => true,
        };
        let above = match filters.min_level {
            Some(level) => spell.level >= level,
            None => true,
        };
        let classed = match &filters.classes {
            Some(classes) => self.filter_spell_for_classes(spell, classes.as_slice()),
            None => true,
        };
        below && above && classed
    }

    /// The spells of `spells` that pass `filters`, in their order; `NoSpellsFound` where none
    /// passes, never an empty list.
    pub fn filter_spells(
        &self,
        spells: Vec<SpellsQuerySpells>,
        filters: &SpellRepositoryFilters,
    ) -> (kept: Result<Vec<SpellsQuerySpells>, SpellError>)
        ensures
            narrowed(spells_view(spells@), filters@).len() == 0 ==> kept == Err::<
                Vec<SpellsQuerySpells>,
                SpellError,
            >(SpellError::NoSpellsFound),
            narrowed(spells_view(spells@), filters@).len() > 0 ==> kept is Ok && spells_view(
                kept->Ok_0@,
            ) == narrowed(spells_view(spells@), filters@),
            kept is Ok ==> kept->Ok_0@.len() > 0,
    {
        let mut kept: Vec<SpellsQuerySpells> = Vec::new();
        let mut i: usize = 0;
        let ghost pred = |spell: SpellView| passes(spell, filters@);
        while i < spells.len()
            invariant
                i <= spells.len(),
                pred == (|spell: SpellView| passes(spell, filters@)),
                spells_view(kept@) == spells_view(spells@.take(i as int)).filter(pred),
            decreases spells.len() - i,
        {
            let ghost before = kept@;
            proof {
                let upto = spells_view(spells@.take(i as int + 1));
                assert(upto.drop_last() =~= spells_view(spells@.take(i as int)));
                assert(upto.last() == spells@[i as int]@);
                reveal(Seq::filter);
            }
            if self.spell_passes(&spells[i], filters) {
                let spell = spells[i].clone();
                kept.push(spell);
                assert(spells_view(kept@) =~= spells_view(before).push(spell@));
            }
            i = i + 1;
        }
        assert(spells@.take(i as int) =~= spells@);
        if kept.len() == 0 {
            Err(SpellError::NoSpellsFound)
        } else {
            Ok(kept)
        }
    }

    /// A spell chosen at random among those of the list of all spells that pass `filters`;
    /// `NoSpellsFound` where none passes. Where the list cannot be had, the error of the
    /// retrieval is returned.
    pub fn get_random_spell(&mut self, filters: &SpellRepositoryFilters) -> (chosen: Result<
        SpellsQuerySpells,
        SpellError,
    >)
        requires
            old(self).wf(),
        ensures
            final(self).wf(),
            final(self).datasource == old(self).datasource,
            random_outcome(
                old(self).local_datasource,
                final(self).local_datasource,
                filters@,
                one(chosen),
            ),
    {
        let spells = match self.get_all_spells_and_cache() {
            Ok(spells) => spells,
            Err(error) => { return Err(error); },
        };
        let ghost all = spells_view(spells@);
        assert(retrieval(old(self).local_datasource, self.local_datasource, Ok(all)));
        let filtered = match self.filter_spells(spells, filters) {
            Ok(filtered) => filtered,
            Err(error) => {
                assert(random_selection(all, filters@, Err(error)));
                return Err(error);
            },
        };
        let chosen = random_spell(&filtered);
        assert(random_selection(all, filters@, one(chosen)));
        chosen
    }

    /// The first spell of the list of all spells that goes by `name`, as `spell_by_name`
    /// says; `NoSpellsFound` where none does. Where the list cannot be had, the error of
    /// the retrieval is returned.
    pub fn get_spell_by_name(&mut self, name: String) -> (found: Result<
        SpellsQuerySpells,
        SpellError,
    >)
        requires
            old(self).wf(),
        ensures
            final(self).wf(),
            final(self).datasource == old(self).datasource,
            by_name_outcome(
                old(self).local_datasource,
                final(self).local_datasource,
                name@,
                one(found),
            ),
    {
        let spells = match self.get_all_spells_and_cache() {
            Ok(spells) => spells,
            Err(error) => { return Err(error); },
        };
        let ghost all = spells_view(spells@);
        assert(retrieval(old(self).local_datasource, self.local_datasource, Ok(all)));
        let found = spell_by_name(&spells, name.as_str());
        proof {
            if found is Ok {
                let at = choose|at: int|
                    #[trigger] first_match_at(all_name_keys(all), normal_form(name@), at)
                        && found->Ok_0@ == spells@[at]@;
                assert(found->Ok_0@ == all[at]);
            } else {
                assert forall|j: int| 0 <= j < all.len() implies !key_matches(
                    name_keys(#[trigger] all[j]),
                    normal_form(name@),
                ) by {
                    assert(all[j] == spells@[j]@);
                }
            }
            assert(name_selection(all, name@, one(found)));
        }
        found
    }

    /// The spells of the list of all spells that pass `filters`, in the order of the list;
    /// `NoSpellsFound` where none passes. Where the list cannot be had, the error of the
    /// retrieval is returned.
    pub fn get_all_spells_with_filters(&mut self, filters: &SpellRepositoryFilters) -> (kept:
        Result<Vec<SpellsQuerySpells>, SpellError>)
        requires
            old(self).wf(),
        ensures
            final(self).wf(),
            final(self).datasource == old(self).datasource,
            filtered_outcome(
                old(self).local_datasource,
                final(self).local_datasource,
                filters@,
                listed(kept),
            ),
    {
        let spells = match self.get_all_spells_and_cache() {
            Ok(spells) => spells,
            Err(error) => { return Err(error); },
        };
        let ghost all = spells_view(spells@);
        assert(retrieval(old(self).local_datasource, self.local_datasource, Ok(all)));
        let kept = self.filter_spells(spells, filters);
        assert(filter_selection(all, filters@, listed(kept)));
        kept
    }

    /// Answers a request with the spells to show: the one spell that was asked for by name
    /// or at random, or all that pass the filters. The errors are those of the three
    /// operations.
    pub fn answer(&mut self, request: SpellRequest) -> (answer: Result<Vec<Spell>, SpellError>)
        requires
            old(self).wf(),
        ensures
            final(self).wf(),
            final(self).datasource == old(self).datasource,
            match request {
                SpellRequest::ByName(name) => exists|found: Result<SpellView, SpellError>|
                    #[trigger] by_name_outcome(
                        old(self).local_datasource,
                        final(self).local_datasource,
                        name@,
                        found,
                    ) && shown_all(answer) == shown_one(found),
                SpellRequest::Random(filters) => exists|chosen: Result<SpellView, SpellError>|
                    #[trigger] random_outcome(
                        old(self).local_datasource,
                        final(self).local_datasource,
                        filters@,
                        chosen,
                    ) && shown_all(answer) == shown_one(chosen),
                SpellRequest::All(filters) => exists|kept: Result<Seq<SpellView>, SpellError>|
                    #[trigger] filtered_outcome(
                        old(self).local_datasource,
                        final(self).local_datasource,
                        filters@,
                        kept,
                    ) && shown_all(answer) == shown_many(kept),
            },
    {
        match request {
            SpellRequest::ByName(name) => {
                let found = self.get_spell_by_name(name);
                let ghost selected = one(found);
                let answer = show_one(found);
                assert(shown_all(answer) == shown_one(selected));
                answer
            },
            SpellRequest::Random(filters) => {
                let chosen = self.get_random_spell(&filters);
                let ghost selected = one(chosen);
                let answer = show_one(chosen);
                assert(shown_all(answer) == shown_one(selected));
                answer
            },
            SpellRequest::All(filters) => {
                let kept = self.get_all_spells_with_filters(&filters);
                let ghost selected = listed(kept);
                let answer = show_many(kept);
                assert(shown_all(answer) == shown_many(selected));
                answer
            },
        }
    }
}

/// One spell or none, as it is shown.
pub fn show_one(found: Result<SpellsQuerySpells, SpellError>) -> (answer: Result<
    Vec<Spell>,
    SpellError,
>)
    ensures
        shown_all(answer) == shown_one(one(found)),
{
    match found {
        Ok(spell) => {
            let entity = spell_from_spells_query_spells(&spell);
            let answer = vec![entity];
            assert(answer@.map_values(|spell: Spell| spell@) =~= seq![shown(spell@)]);
            Ok(answer)
        },
        Err(error) => Err(error),
    }
}

/// A list of spells or none, as they are shown.
pub fn show_many(kept: Result<Vec<SpellsQuerySpells>, SpellError>) -> (answer: Result<
    Vec<Spell>,
    SpellError,
>)
    ensures
        shown_all(answer) == shown_many(listed(kept)),
{
    match kept {
        Ok(spells) => {
            let mut answer: Vec<Spell> = Vec::new();
            let mut i: usize = 0;
            while i < spells.len()
                invariant
                    i <= spells.len(),
                    answer@.len() == i,
                    forall|k: int| 0 <= k < i ==> (#[trigger] answer@[k])@ == shown(spells@[k]@),
                decreases spells.len() - i,
            {
                answer.push(spell_from_spells_query_spells(&spells[i]));
                i = i + 1;
            }
            assert(answer@.map_values(|spell: Spell| spell@) =~= spells_view(spells@).map_values(
                |spell: SpellView| shown(spell),
            ));
            Ok(answer)
        },
        Err(error) => Err(error),
    }
}

} // verus!
