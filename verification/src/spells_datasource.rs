//! The remote source of spells: its address, what it is asked, how its answer is read, and
//! the errors with which it fails.

use crate::spell_model::{
    class_view, classes_view, spells_view, texts_view, AbilityScoreSkillsModel, ClassView,
    SpellModel, SpellModelView, SpellsQuerySpells, SpellsQuerySpellsClasses,
};
use vstd::prelude::*;
use vstd::string::StringExecFns;

verus! {

/// The status of an answer that carries data.
pub const HTTP_OK: u16 = 200;

/// Why the remote source gave no data.
#[derive(Debug, PartialEq, Eq)]
pub enum APIError {
    /// The service answered, and reported this error.
    GraphQL(String),
    /// No answer was obtained, or none that could be read.
    Reqwest(String),
    /// The service answered with a status other than success: the status and its reason.
    ResponseHttp(u16, String),
}

/// Why a source of spells failed.
#[derive(Debug, PartialEq, Eq)]
pub enum SpellsDataSourceError {
    GraphQLError(APIError),
    NoSpellsFound,
}

/// A source of the complete list of spells. One call is one attempt; nothing is promised of
/// what comes back.
pub trait SpellsDataSource {
    fn get_all_spells(&self) -> Result<Vec<SpellsQuerySpells>, SpellsDataSourceError>;
}

/// The address of a GraphQL service.
#[derive(Debug)]
pub struct GraphQLAPI {
    api_url: String,
}

/// The error message that stands for the errors that a service reported: the first of
/// them.
pub open spec fn reported_message(errors: Option<Seq<Seq<char>>>) -> Seq<char> {
    match errors {
        Some(messages) => if messages.len() > 0 {
            messages[0]
        } else {
            "No error found in response"@
        },
        None => "No errors reported"@,
    }
}

impl GraphQLAPI {
    /// The address that the service is asked at.
    pub closed spec fn url(&self) -> Seq<char> {
        self.api_url@
    }

    pub fn new(api_url: String) -> (api: GraphQLAPI)
        ensures
            api.url() == api_url@,
    {
        GraphQLAPI { api_url }
    }

    /// The address that the service is asked at.
    pub fn api_url(&self) -> (url: &str)
        ensures
            url@ == self.url(),
    {
        self.api_url.as_str()
    }

    /// Accepts the status of an answer: any status but success is an error, with its
    /// reason.
    pub fn check_status(status: u16, reason: String) -> (checked: Result<(), APIError>)
        ensures
            status == HTTP_OK ==> checked is Ok,
            status != HTTP_OK ==> checked == Err::<(), APIError>(
                APIError::ResponseHttp(status, reason),
            ),
    {
        if status != HTTP_OK {
            return Err(APIError::ResponseHttp(status, reason));
        }
        Ok(())
    }

    /// Reads the body of an answer: its data where it has any, else the first of the errors
    /// that it reports.
    pub fn response_data(data: Option<Vec<SpellsQuerySpells>>, errors: Option<Vec<String>>) -> (read:
        Result<Vec<SpellsQuerySpells>, APIError>)
        ensures
            match data {
                Some(spells) => read == Ok::<Vec<SpellsQuerySpells>, APIError>(spells),
                None => {
                    &&& read matches Err(APIError::GraphQL(message))
                    &&& message@ == reported_message(
                        match errors {
                            Some(messages) => Some(texts_view(messages@)),
                            None => None,
                        },
                    )
                },
            },
    {
        match data {
            Some(spells) => Ok(spells),
            None => {
                let message = match errors {
                    Some(messages) => {
                        if messages.len() > 0 {
                            messages[0].clone()
                        } else {
                            String::from_str("No error found in response")
                        }
                    },
                    None => String::from_str("No errors reported"),
                };
                Err(APIError::GraphQL(message))
            },
        }
    }
}

/// What the service is asked with.
#[derive(Debug, PartialEq, Eq)]
pub struct Variables {
    pub limit: Option<i64>,
}

/// The source of spells behind a GraphQL service.
#[derive(Debug)]
pub struct SpellsGraphQLDataSource {
    api: GraphQLAPI,
}

/// The classes that are present among `classes`, in order.
pub open spec fn present_classes(classes: Seq<Option<ClassView>>) -> Seq<ClassView>
    decreases classes.len(),
{
    if classes.len() == 0 {
        Seq::empty()
    } else {
        match classes.last() {
            Some(class) => present_classes(classes.drop_last()).push(class),
            None => present_classes(classes.drop_last()),
        }
    }
}

/// What a list of class models holds.
pub open spec fn models_view(models: Seq<AbilityScoreSkillsModel>) -> Seq<ClassView> {
    models.map_values(|model: AbilityScoreSkillsModel| model@)
}

/// The model of a spell: the spell with the classes that are present.
pub open spec fn model_of(spell: crate::spell_model::SpellView) -> SpellModelView {
    SpellModelView {
        name: spell.name,
        level: spell.level,
        desc: spell.desc,
        url: spell.url,
        index: spell.index,
        classes: match spell.classes {
            Some(classes) => Some(present_classes(classes)),
            None => None,
        },
    }
}

/// What a list of spell models holds.
pub open spec fn spell_models_view(models: Seq<SpellModel>) -> Seq<SpellModelView> {
    models.map_values(|model: SpellModel| model@)
}

impl SpellsGraphQLDataSource {
    /// The service that the source asks.
    pub closed spec fn service(&self) -> GraphQLAPI {
        self.api
    }

    pub fn new(api: GraphQLAPI) -> (source: SpellsGraphQLDataSource)
        ensures
            source.service() == api,
    {
        SpellsGraphQLDataSource { api }
    }

    /// The service that the source asks.
    pub fn api(&self) -> (api: &GraphQLAPI)
        ensures
            *api == self.service(),
    {
        &self.api
    }

    /// The whole list is asked for: a limit of 0 is no limit.
    pub fn make_variables(&self) -> (variables: Variables)
        ensures
            variables.limit == Some(0i64),
    {
        Variables { limit: Some(0) }
    }

    /// The models of the classes that are present.
    pub fn spell_query_classes_to_model(
        &self,
        classes: Option<Vec<Option<SpellsQuerySpellsClasses>>>,
    ) -> (models: Option<Vec<AbilityScoreSkillsModel>>)
        ensures
            match classes {
                Some(given) => models is Some && models_view(models->Some_0@) == present_classes(
                    classes_view(given@),
                ),
                None => models is None,
            },
    {
        match classes {
            None => None,
            Some(given) => {
                let mut models: Vec<AbilityScoreSkillsModel> = Vec::new();
                let mut i: usize = 0;
                while i < given.len()
                    invariant
                        i <= given.len(),
                        models_view(models@) == present_classes(
                            classes_view(given@.take(i as int)),
                        ),
                    decreases given.len() - i,
                {
                    let ghost before = models@;
                    proof {
                        let upto = classes_view(given@.take(i as int + 1));
                        assert(upto.drop_last() =~= classes_view(given@.take(i as int)));
                        assert(upto.last() == class_view(given@[i as int]));
                    }
                    match &given[i] {
                        Some(class) => {
                            let model = AbilityScoreSkillsModel::new(
                                class.name.clone(),
                                class.index.clone(),
                            );
                            models.push(model);
                            assert(models_view(models@) =~= models_view(before).push(model@));
                        },
                        None => {},
                    }
                    i = i + 1;
                }
                assert(given@.take(i as int) =~= given@);
                Some(models)
            },
        }
    }

    /// The models of the spells of an answer.
    pub fn spell_query_to_model(&self, spells: Vec<SpellsQuerySpells>) -> (models: Vec<SpellModel>)
        ensures
            spell_models_view(models@) == spells_view(spells@).map_values(
                |spell: crate::spell_model::SpellView| model_of(spell),
            ),
    {
        let mut models: Vec<SpellModel> = Vec::new();
        let mut i: usize = 0;
        while i < spells.len()
            invariant
                i <= spells.len(),
                models@.len() == i,
                forall|k: int| 0 <= k < i ==> (#[trigger] models@[k])@ == model_of(spells@[k]@),
            decreases spells.len() - i,
        {
            let spell = spells[i].clone();
            let classes = self.spell_query_classes_to_model(spell.classes);
            let model = SpellModel::new(
                spell.name,
                spell.level,
                spell.desc,
                spell.url,
                spell.index,
                classes,
            );
            models.push(model);
            i = i + 1;
        }
        assert(spell_models_view(models@) =~= spells_view(spells@).map_values(
            |spell: crate::spell_model::SpellView| model_of(spell),
        ));
        models
    }
}

} // verus!
