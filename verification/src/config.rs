//! The settings of the process, and the use cases that they set up.

use crate::dice::DiceImplementation;
use crate::spells_datasource::{GraphQLAPI, SpellsDataSource, SpellsGraphQLDataSource};
use crate::spells_repository::{SpellRepository, CACHE_CAPACITY};
use vstd::prelude::*;
use vstd::string::StringExecFns;

verus! {

/// Where the remote source of spells is.
#[derive(Debug, PartialEq, Eq)]
pub struct SpellApi {
    pub url: String,
}

/// Of what kind the remote source of spells is, and for how many milliseconds a list that
/// it gave stays fresh.
#[derive(Debug, PartialEq, Eq)]
pub struct SpellDatasource {
    pub remote_type: String,
    pub cache_time: u64,
}

/// The settings of the retrieval of spells.
#[derive(Debug, PartialEq, Eq)]
pub struct SpellSettings {
    pub spell_api: SpellApi,
    pub spell_datasource: SpellDatasource,
}

/// The settings of the process.
#[derive(Debug, PartialEq, Eq)]
pub struct Settings {
    pub debug: bool,
    pub spell_settings: SpellSettings,
}

/// Sets up the use cases from the settings.
pub struct SettingsHandler {
    pub settings: Settings,
}

impl SettingsHandler {
    /// The only kind of remote source there is: a GraphQL service.
    pub open spec fn remote_is_graphql(&self) -> bool {
        self.settings.spell_settings.spell_datasource.remote_type@ == "graphql"@
    }

    pub fn new(settings: Settings) -> (handler: SettingsHandler)
        ensures
            handler.settings == settings,
    {
        SettingsHandler { settings }
    }

    /// Whether the settings name a kind of remote source that there is.
    pub fn knows_remote_type(&self) -> (known: bool)
        ensures
            known == self.remote_is_graphql(),
    {
        self.settings.spell_settings.spell_datasource.remote_type == String::from_str("graphql")
    }

    /// The source of spells behind the service that the settings name.
    pub fn setup_graphql_datasource(&self) -> (source: SpellsGraphQLDataSource)
        ensures
            source.service().url() == self.settings.spell_settings.spell_api.url@,
    {
        let api = GraphQLAPI::new(self.settings.spell_settings.spell_api.url.clone());
        SpellsGraphQLDataSource::new(api)
    }

    /// The repository of spells over `datasource`, with an empty store in which a list
    /// stays fresh for the time that the settings give.
    pub fn setup_spell_usecase<T: SpellsDataSource>(&self, datasource: T) -> (repository:
        SpellRepository<T>)
        requires
            self.remote_is_graphql(),
        ensures
            repository.wf(),
            repository.datasource == datasource,
            repository.local_datasource.capacity() == CACHE_CAPACITY,
            repository.local_datasource.permanent().len() == 0,
            repository.local_datasource.timed().len() == 0,
    {
        SpellRepository::new(
            datasource,
            Some(self.settings.spell_settings.spell_datasource.cache_time),
        )
    }

    pub fn setup_dice_usecase(&self) -> (dice: DiceImplementation) {
        DiceImplementation::new()
    }
}

} // verus!
