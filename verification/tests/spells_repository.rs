use random_spells::spell_model::{SpellsQuerySpells, SpellsQuerySpellsClasses};
use random_spells::spells_datasource::{APIError, SpellsDataSource, SpellsDataSourceError};
use random_spells::spell_model::Spell;
use random_spells::spells_repository::{
    class_is_among, first_match, normalize, random_spell, serve_recent, show_many, show_one,
    spell_by_name, LocalSpellsDataSourceError, SpellError, SpellRepository,
    SpellRepositoryFilters, SpellRequest, SPELL_KEY,
};
use std::cell::Cell;
use std::time::{Duration, Instant};

/// The integer that stands for a level: it keeps the order and the equality of the numbers.
fn level(value: f64) -> i64 {
    if value == 0.0 {
        return 0;
    }
    let bits = value.to_bits() as i64;
    bits ^ ((((bits >> 63) as u64) >> 1) as i64)
}

fn wait(millis: u64) {
    let start = Instant::now();
    while start.elapsed() <= Duration::from_millis(millis) {}
}

fn dummy_ability_score(name: &str) -> Option<SpellsQuerySpellsClasses> {
    Some(SpellsQuerySpellsClasses {
        name: Some(name.to_string()),
        index: Some(name.to_string()),
    })
}

fn dummy_spell_model() -> Vec<SpellsQuerySpells> {
    vec![SpellsQuerySpells {
        name: Some("default".to_string()),
        level: level(1.3),
        desc: Some(vec![Some("default".to_string())]),
        url: Some("default".to_string()),
        index: Some("default-index".to_string()),
        classes: None,
    }]
}

fn dummy_multi_spell_model() -> Vec<SpellsQuerySpells> {
    vec![
        SpellsQuerySpells {
            name: Some("default1".to_string()),
            level: level(1.0),
            desc: Some(vec![Some("default".to_string())]),
            url: Some("default".to_string()),
            index: Some("default-index".to_string()),
            classes: Some(vec![dummy_ability_score("test_class1")]),
        },
        SpellsQuerySpells {
            name: Some("default2".to_string()),
            level: level(2.0),
            desc: Some(vec![Some("default".to_string())]),
            url: Some("default".to_string()),
            index: Some("default-index".to_string()),
            classes: Some(vec![dummy_ability_score("test_class2")]),
        },
        SpellsQuerySpells {
            name: Some("default3".to_string()),
            level: level(3.0),
            desc: Some(vec![Some("default".to_string())]),
            url: Some("default".to_string()),
            index: Some("default-index".to_string()),
            classes: Some(vec![dummy_ability_score("test_class3")]),
        },
    ]
}

fn dummy_repo_filters() -> SpellRepositoryFilters {
    SpellRepositoryFilters {
        min_level: None,
        max_level: None,
        classes: None,
    }
}

struct SingeSpellDataSourceMock;

impl SpellsDataSource for SingeSpellDataSourceMock {
    fn get_all_spells(&self) -> Result<Vec<SpellsQuerySpells>, SpellsDataSourceError> {
        Ok(dummy_spell_model())
    }
}

fn make_single_spell_repository() -> SpellRepository<SingeSpellDataSourceMock> {
    let datasource = SingeSpellDataSourceMock;
    SpellRepository::new(datasource, Some(100))
}

struct MultiSpellDataSourceMock;

impl SpellsDataSource for MultiSpellDataSourceMock {
    fn get_all_spells(&self) -> Result<Vec<SpellsQuerySpells>, SpellsDataSourceError> {
        Ok(dummy_multi_spell_model())
    }
}

fn make_multi_spell_repository() -> SpellRepository<MultiSpellDataSourceMock> {
    let datasource = MultiSpellDataSourceMock;
    SpellRepository::new(datasource, Some(100))
}

/// A source that counts how often it is asked, and fails from the call `fails_from` on.
struct CountingSource {
    calls: Cell<usize>,
    fails_from: usize,
}

impl CountingSource {
    fn new(fails_from: usize) -> Self {
        CountingSource {
            calls: Cell::new(0),
            fails_from,
        }
    }
}

fn outage() -> SpellsDataSourceError {
    SpellsDataSourceError::GraphQLError(APIError::Reqwest("no route".to_string()))
}

impl SpellsDataSource for CountingSource {
    fn get_all_spells(&self) -> Result<Vec<SpellsQuerySpells>, SpellsDataSourceError> {
        let call = self.calls.get();
        self.calls.set(call + 1);
        if call >= self.fails_from {
            Err(outage())
        } else {
            let mut spells = dummy_multi_spell_model();
            spells[0].url = Some(format!("fetch-{}", call));
            Ok(spells)
        }
    }
}

fn names(spells: Vec<SpellsQuerySpells>) -> Vec<Option<String>> {
    spells.into_iter().map(|x| x.name).collect::<Vec<Option<String>>>()
}

#[test]
fn test_get_all_spells_cache() {
    let mut repository = make_single_spell_repository();
    let _ = repository.get_all_spells_and_cache();

    assert_eq!(
        repository.local_datasource.get(0_u8).unwrap()[0].name,
        Some("default".to_string())
    );

    assert_eq!(
        repository.local_datasource.get_recent(0_u8).unwrap()[0].name,
        Some("default".to_string())
    );
}

#[test]
fn test_get_random_spell() {
    let filters = dummy_repo_filters();
    let mut repository = make_single_spell_repository();
    let random_spell = repository.get_random_spell(&filters).unwrap();
    assert_eq!(random_spell.name, Some("default".to_string()));
}

#[test]
fn test_min_level_filter_spells() {
    let mut filters = dummy_repo_filters();
    filters.min_level = Some(level(3.0));
    let repository = make_multi_spell_repository();

    let spells = dummy_multi_spell_model();
    let filtered = repository.filter_spells(spells, &filters).unwrap();
    assert_eq!(filtered[0].name, Some("default3".to_string()));
}

#[test]
fn test_bad_min_level_filter_spells() {
    let mut filters = dummy_repo_filters();
    filters.min_level = Some(level(4.0));
    let repository = make_multi_spell_repository();

    let spells = dummy_multi_spell_model();
    let filtered = repository.filter_spells(spells, &filters);
    assert!(filtered.is_err());
}

#[test]
fn test_max_level_filter_spells() {
    let mut filters = dummy_repo_filters();
    filters.max_level = Some(level(1.0));
    let repository = make_multi_spell_repository();

    let spells = dummy_multi_spell_model();
    let filtered = repository.filter_spells(spells, &filters).unwrap();
    assert_eq!(filtered[0].name, Some("default1".to_string()));
}

#[test]
fn test_bad_max_level_filter_spells() {
    let mut filters = dummy_repo_filters();
    filters.max_level = Some(level(0.0));
    let repository = make_multi_spell_repository();

    let spells = dummy_multi_spell_model();
    let filtered = repository.filter_spells(spells, &filters);
    assert!(filtered.is_err());
}

#[test]
fn test_classes_filter_spells() {
    let mut filters = dummy_repo_filters();
    filters.classes = Some(vec!["test_class3".to_string()]);
    let repository = make_multi_spell_repository();

    let spells = dummy_multi_spell_model();
    let filtered = repository.filter_spells(spells, &filters).unwrap();
    assert_eq!(filtered[0].name, Some("default3".to_string()));
}

#[test]
fn test_multi_classes_filter_spells() {
    let mut filters = dummy_repo_filters();
    filters.classes = Some(vec!["test_class2".to_string(), "test_class3".to_string()]);
    let repository = make_multi_spell_repository();

    let spells = dummy_multi_spell_model();
    let filtered = repository.filter_spells(spells, &filters).unwrap();
    assert_eq!(
        filtered
            .into_iter()
            .map(|x| x.name)
            .collect::<Vec<Option<String>>>(),
        vec![Some("default2".to_string()), Some("default3".to_string())]
    );
}

#[test]
fn test_all_classes_filter_spells() {
    let filters = dummy_repo_filters();
    let repository = make_multi_spell_repository();

    let spells = dummy_multi_spell_model();
    let filtered = repository.filter_spells(spells, &filters).unwrap();
    assert_eq!(
        filtered
            .into_iter()
            .map(|x| x.name)
            .collect::<Vec<Option<String>>>(),
        vec![
            Some("default1".to_string()),
            Some("default2".to_string()),
            Some("default3".to_string())
        ]
    );
}

#[test]
fn test_bad_classes_filter_spells() {
    let mut filters = dummy_repo_filters();
    filters.classes = Some(vec!["test_class4".to_string()]);
    let repository = make_multi_spell_repository();

    let spells = dummy_multi_spell_model();
    let filtered = repository.filter_spells(spells, &filters);
    assert!(filtered.is_err());
}

#[test]
fn the_level_keys_keep_order_and_equality() {
    assert!(level(1.0) < level(1.3));
    assert!(level(1.3) < level(2.0));
    assert!(level(-1.0) < level(0.0));
    assert!(level(-2.0) < level(-1.0));
    assert_eq!(level(-0.0), level(0.0));
    assert_eq!(level(2.0), level(2.0));
}

#[test]
fn each_level_filter_keeps_exactly_its_spells() {
    let repository = make_multi_spell_repository();
    let mut filters = dummy_repo_filters();
    filters.max_level = Some(level(1.0));
    assert_eq!(
        names(repository.filter_spells(dummy_multi_spell_model(), &filters).unwrap()),
        vec![Some("default1".to_string())]
    );
    let mut filters = dummy_repo_filters();
    filters.min_level = Some(level(3.0));
    assert_eq!(
        names(repository.filter_spells(dummy_multi_spell_model(), &filters).unwrap()),
        vec![Some("default3".to_string())]
    );
    let filters = SpellRepositoryFilters::new(Some(level(2.0)), vec![], true);
    assert_eq!(
        names(repository.filter_spells(dummy_multi_spell_model(), &filters).unwrap()),
        vec![Some("default2".to_string())]
    );
    let filters = SpellRepositoryFilters::new(Some(level(2.0)), vec![], false);
    assert_eq!(
        names(repository.filter_spells(dummy_multi_spell_model(), &filters).unwrap()),
        vec![Some("default1".to_string()), Some("default2".to_string())]
    );
    let mut filters = dummy_repo_filters();
    filters.min_level = Some(level(1.5));
    filters.max_level = Some(level(2.5));
    assert_eq!(
        names(repository.filter_spells(dummy_multi_spell_model(), &filters).unwrap()),
        vec![Some("default2".to_string())]
    );
}

#[test]
fn filters_from_a_level_and_classes() {
    assert_eq!(
        SpellRepositoryFilters::new(Some(5), vec![], false),
        SpellRepositoryFilters {
            min_level: None,
            max_level: Some(5),
            classes: None
        }
    );
    assert_eq!(
        SpellRepositoryFilters::new(Some(5), vec!["bard".to_string()], true),
        SpellRepositoryFilters {
            min_level: Some(5),
            max_level: Some(5),
            classes: Some(vec!["bard".to_string()])
        }
    );
    assert_eq!(
        SpellRepositoryFilters::new(None, vec![], true),
        SpellRepositoryFilters {
            min_level: None,
            max_level: None,
            classes: None
        }
    );
}

#[test]
fn filtering_to_nothing_is_no_spells_found() {
    let repository = make_multi_spell_repository();
    let mut filters = dummy_repo_filters();
    filters.classes = Some(vec![]);
    assert_eq!(
        repository.filter_spells(dummy_multi_spell_model(), &filters),
        Err(SpellError::NoSpellsFound)
    );
    assert_eq!(
        repository.filter_spells(vec![], &dummy_repo_filters()),
        Err(SpellError::NoSpellsFound)
    );
    filters.classes = Some(vec!["TEST_CLASS1".to_string()]);
    assert_eq!(
        repository.filter_spells(dummy_multi_spell_model(), &filters),
        Err(SpellError::NoSpellsFound)
    );
}

#[test]
fn a_class_answers_by_name_or_by_index() {
    let class = Some(SpellsQuerySpellsClasses {
        name: Some("Bard".to_string()),
        index: Some("bard".to_string()),
    });
    assert!(class_is_among(&class, &["x".to_string(), "bard".to_string()]));
    assert!(class_is_among(&class, &["Bard".to_string()]));
    assert!(!class_is_among(&class, &["BARD".to_string()]));
    assert!(!class_is_among(&class, &[]));
    assert!(!class_is_among(&None, &["bard".to_string()]));
    let nameless = Some(SpellsQuerySpellsClasses {
        name: None,
        index: Some("bard".to_string()),
    });
    assert!(class_is_among(&nameless, &["bard".to_string()]));
    assert!(!class_is_among(&nameless, &["".to_string()]));
}

#[test]
fn a_spell_passes_for_any_of_its_classes() {
    let repository = make_multi_spell_repository();
    let mut spell = dummy_multi_spell_model().remove(0);
    spell.classes = Some(vec![None, dummy_ability_score("a"), dummy_ability_score("b")]);
    assert!(repository.filter_spell_for_classes(&spell, &["b".to_string()]));
    assert!(!repository.filter_spell_for_classes(&spell, &["c".to_string()]));
    spell.classes = None;
    assert!(!repository.filter_spell_for_classes(&spell, &["b".to_string()]));
}

#[test]
fn a_fresh_list_is_served_without_asking_the_source() {
    let mut repository = SpellRepository::new(CountingSource::new(usize::MAX), Some(100000));
    repository
        .local_datasource
        .insert(dummy_spell_model(), SPELL_KEY);
    let spells = repository.get_all_spells_and_cache().unwrap();
    assert_eq!(spells, dummy_spell_model());
    assert_eq!(repository.datasource.calls.get(), 0);
}

#[test]
fn a_fetched_list_is_stored_and_served_again() {
    let mut repository = SpellRepository::new(CountingSource::new(usize::MAX), Some(100000));
    let first = repository.get_all_spells_and_cache().unwrap();
    assert_eq!(repository.datasource.calls.get(), 1);
    assert_eq!(first[0].url, Some("fetch-0".to_string()));
    let second = repository.get_all_spells_and_cache().unwrap();
    assert_eq!(repository.datasource.calls.get(), 1);
    assert_eq!(second, first);
    assert_eq!(repository.local_datasource.get(SPELL_KEY), Some(first));
}

#[test]
fn a_stale_list_is_fetched_anew() {
    let mut repository = SpellRepository::new(CountingSource::new(usize::MAX), Some(2));
    let first = repository.get_all_spells_and_cache().unwrap();
    wait(3);
    let second = repository.get_all_spells_and_cache().unwrap();
    assert_eq!(repository.datasource.calls.get(), 2);
    assert_eq!(first[0].url, Some("fetch-0".to_string()));
    assert_eq!(second[0].url, Some("fetch-1".to_string()));
    assert_eq!(repository.local_datasource.get(SPELL_KEY), Some(second));
}

#[test]
fn a_stale_list_is_served_when_the_source_fails() {
    let mut repository = SpellRepository::new(CountingSource::new(1), Some(2));
    let first = repository.get_all_spells_and_cache().unwrap();
    wait(3);
    let second = repository.get_all_spells_and_cache().unwrap();
    assert_eq!(repository.datasource.calls.get(), 2);
    assert_eq!(second, first);
    wait(3);
    assert_eq!(repository.get_all_spells_and_cache().unwrap(), first);
    assert_eq!(repository.datasource.calls.get(), 3);
}

#[test]
fn a_failure_without_a_stored_list_is_returned() {
    let mut repository = SpellRepository::new(CountingSource::new(0), Some(1000));
    assert_eq!(
        repository.get_all_spells_and_cache(),
        Err(SpellError::DataSourceError(outage()))
    );
    assert_eq!(repository.datasource.calls.get(), 1);
    assert_eq!(repository.local_datasource.get(SPELL_KEY), None);
    assert_eq!(
        repository.get_random_spell(&dummy_repo_filters()),
        Err(SpellError::DataSourceError(outage()))
    );
    assert_eq!(
        repository.get_spell_by_name("default1".to_string()),
        Err(SpellError::DataSourceError(outage()))
    );
    assert_eq!(
        repository.get_all_spells_with_filters(&dummy_repo_filters()),
        Err(SpellError::DataSourceError(outage()))
    );
}

#[test]
fn settle_fetch_stores_a_list_and_falls_back_on_a_failure() {
    let mut repository = SpellRepository::new(CountingSource::new(0), Some(100000));
    assert_eq!(
        repository.settle_fetch(Err(SpellsDataSourceError::NoSpellsFound)),
        Err(SpellError::DataSourceError(SpellsDataSourceError::NoSpellsFound))
    );
    assert_eq!(
        repository.settle_fetch(Ok(dummy_spell_model())),
        Ok(dummy_spell_model())
    );
    assert_eq!(
        repository.local_datasource.get_recent(SPELL_KEY),
        Some(dummy_spell_model())
    );
    assert_eq!(
        repository.settle_fetch(Err(outage())),
        Ok(dummy_spell_model())
    );
    assert_eq!(repository.datasource.calls.get(), 0);
}

#[test]
fn the_steps_of_a_retrieval() {
    assert_eq!(serve_recent(Some(dummy_spell_model())), Ok(dummy_spell_model()));
    assert_eq!(
        serve_recent(None),
        Err(SpellError::LocalDataSourceError(
            LocalSpellsDataSourceError::RecentCacheEmpty
        ))
    );
    let mut repository = SpellRepository::new(CountingSource::new(usize::MAX), None);
    assert_eq!(
        repository.get_spells_from_recent_local_datasource(),
        Err(SpellError::LocalDataSourceError(
            LocalSpellsDataSourceError::RecentCacheEmpty
        ))
    );
    assert_eq!(
        repository.get_spells_from_local_datasource(),
        Err(SpellError::LocalDataSourceError(
            LocalSpellsDataSourceError::CacheEmpty
        ))
    );
    let fetched = repository.get_spells_from_datasource().unwrap();
    assert_eq!(repository.datasource.calls.get(), 1);
    repository.cache_spells(&fetched);
    assert_eq!(
        repository.get_spells_from_recent_local_datasource(),
        Ok(fetched.clone())
    );
    assert_eq!(repository.get_spells_from_local_datasource(), Ok(fetched));
}

#[test]
fn a_random_spell_is_one_of_the_list() {
    assert_eq!(random_spell(&vec![]), Err(SpellError::NoSpellsFound));
    let spells = dummy_multi_spell_model();
    for _ in 0..50 {
        let chosen = random_spell(&spells).unwrap();
        assert!(spells.contains(&chosen));
    }
    let mut repository = make_multi_spell_repository();
    let mut filters = dummy_repo_filters();
    filters.min_level = Some(level(2.0));
    for _ in 0..50 {
        let chosen = repository.get_random_spell(&filters).unwrap();
        assert!(chosen.level >= level(2.0));
    }
    filters.min_level = Some(level(9.0));
    assert_eq!(
        repository.get_random_spell(&filters),
        Err(SpellError::NoSpellsFound)
    );
}

#[test]
fn names_are_compared_in_lower_case_without_the_space_around_them() {
    assert_eq!(normalize("  BARD's  "), "bard's".to_string());
    assert_eq!(normalize("\tAcid Arrow\n"), "acid arrow".to_string());
    assert_eq!(normalize(""), "".to_string());
}

#[test]
fn the_first_match_of_a_key() {
    let keys = vec![
        ("a".to_string(), "x".to_string()),
        ("b".to_string(), "a".to_string()),
        ("a".to_string(), "a".to_string()),
    ];
    assert_eq!(first_match(&keys, &"a".to_string()), Some(0));
    assert_eq!(first_match(&keys, &"b".to_string()), Some(1));
    assert_eq!(first_match(&keys, &"x".to_string()), Some(0));
    assert_eq!(first_match(&keys, &"A".to_string()), None);
    assert_eq!(first_match(&vec![], &"a".to_string()), None);
}

#[test]
fn a_spell_is_found_by_its_name_or_its_index() {
    let mut spells = dummy_multi_spell_model();
    spells[1].name = Some(" Bard's  Song".to_string());
    spells[1].index = Some("Bards-Song".to_string());
    spells[2].name = None;
    spells[2].index = Some("bard's  song".to_string());
    assert_eq!(spell_by_name(&spells, "  BARD's  SONG "), Ok(spells[1].clone()));
    assert_eq!(spell_by_name(&spells, "bards-song"), Ok(spells[1].clone()));
    assert_eq!(spell_by_name(&spells, " DEFAULT-INDEX"), Ok(spells[0].clone()));
    assert_eq!(spell_by_name(&spells, "default1"), Ok(spells[0].clone()));
    assert_eq!(spell_by_name(&spells, "  "), Ok(spells[2].clone()));
    assert_eq!(spell_by_name(&spells, "bard"), Err(SpellError::NoSpellsFound));
    assert_eq!(spell_by_name(&vec![], "bard"), Err(SpellError::NoSpellsFound));
}

#[test]
fn the_repository_finds_by_name_and_lists_with_filters() {
    let mut repository = make_multi_spell_repository();
    assert_eq!(
        repository.get_spell_by_name(" Default2 ".to_string()).unwrap().level,
        level(2.0)
    );
    assert_eq!(
        repository.get_spell_by_name("nothing".to_string()),
        Err(SpellError::NoSpellsFound)
    );
    let filters = SpellRepositoryFilters::new(None, vec!["test_class2".to_string()], false);
    assert_eq!(
        names(repository.get_all_spells_with_filters(&filters).unwrap()),
        vec![Some("default2".to_string())]
    );
    let filters = SpellRepositoryFilters::new(Some(level(0.5)), vec![], false);
    assert_eq!(
        repository.get_all_spells_with_filters(&filters),
        Err(SpellError::NoSpellsFound)
    );
}

fn shown(name: &str, level: i64, class: &str) -> Spell {
    Spell {
        name: name.to_string(),
        level,
        desc: vec!["default".to_string()],
        classes: vec![class.to_string()],
    }
}

#[test]
fn a_request_is_made_from_the_arguments() {
    assert_eq!(
        SpellRequest::new(Some("x".to_string()), true, Some(3), vec!["bard".to_string()], true),
        SpellRequest::ByName("x".to_string())
    );
    assert_eq!(
        SpellRequest::new(None, true, Some(3), vec!["bard".to_string()], true),
        SpellRequest::Random(SpellRepositoryFilters {
            min_level: Some(3),
            max_level: Some(3),
            classes: Some(vec!["bard".to_string()])
        })
    );
    assert_eq!(
        SpellRequest::new(None, false, Some(3), vec![], false),
        SpellRequest::All(SpellRepositoryFilters {
            min_level: None,
            max_level: Some(3),
            classes: None
        })
    );
}

#[test]
fn spells_are_shown_one_or_many() {
    let spells = dummy_multi_spell_model();
    assert_eq!(
        show_one(Ok(spells[1].clone())),
        Ok(vec![shown("default2", level(2.0), "test_class2")])
    );
    assert_eq!(
        show_one(Err(SpellError::NoSpellsFound)),
        Err(SpellError::NoSpellsFound)
    );
    assert_eq!(
        show_many(Ok(spells)),
        Ok(vec![
            shown("default1", level(1.0), "test_class1"),
            shown("default2", level(2.0), "test_class2"),
            shown("default3", level(3.0), "test_class3")
        ])
    );
    assert_eq!(show_many(Ok(vec![])), Ok(vec![]));
    assert_eq!(show_many(Err(outage_error())), Err(outage_error()));
}

fn outage_error() -> SpellError {
    SpellError::DataSourceError(outage())
}

#[test]
fn a_request_is_answered_with_the_spells_to_show() {
    let mut repository = make_multi_spell_repository();
    assert_eq!(
        repository.answer(SpellRequest::ByName(" DEFAULT3 ".to_string())),
        Ok(vec![shown("default3", level(3.0), "test_class3")])
    );
    assert_eq!(
        repository.answer(SpellRequest::new(None, true, Some(level(1.0)), vec![], true)),
        Ok(vec![shown("default1", level(1.0), "test_class1")])
    );
    assert_eq!(
        repository.answer(SpellRequest::new(None, false, Some(level(2.0)), vec![], false)),
        Ok(vec![
            shown("default1", level(1.0), "test_class1"),
            shown("default2", level(2.0), "test_class2")
        ])
    );
    assert_eq!(
        repository.answer(SpellRequest::new(None, false, Some(level(0.0)), vec![], false)),
        Err(SpellError::NoSpellsFound)
    );
    assert_eq!(
        repository.answer(SpellRequest::ByName("nothing".to_string())),
        Err(SpellError::NoSpellsFound)
    );
    let mut failing = SpellRepository::new(CountingSource::new(0), None);
    assert_eq!(
        failing.answer(SpellRequest::ByName("default1".to_string())),
        Err(outage_error())
    );
}
