//! Spell records as the remote source hands them out, and the spell as it is shown.

use vstd::prelude::*;

verus! {

/// What an optional text holds.
pub open spec fn text_view(text: Option<String>) -> Option<Seq<char>> {
    match text {
        Some(s) => Some(s@),
        None => None,
    }
}

/// What a list of texts holds.
pub open spec fn texts_view(texts: Seq<String>) -> Seq<Seq<char>> {
    texts.map_values(|text: String| text@)
}

/// The text, or the empty text where there is none.
pub open spec fn text_or_empty(text: Option<Seq<char>>) -> Seq<char> {
    match text {
        Some(s) => s,
        None => Seq::empty(),
    }
}

/// A class that may cast a spell, by its name, by its index, or by both.
#[derive(Debug, PartialEq, Eq)]
pub struct SpellsQuerySpellsClasses {
    pub name: Option<String>,
    pub index: Option<String>,
}

/// What a class holds.
pub struct ClassView {
    pub name: Option<Seq<char>>,
    pub index: Option<Seq<char>>,
}

impl View for SpellsQuerySpellsClasses {
    type V = ClassView;

    open spec fn view(&self) -> ClassView {
        ClassView { name: text_view(self.name), index: text_view(self.index) }
    }
}

impl Clone for SpellsQuerySpellsClasses {
    fn clone(&self) -> (copy: Self)
        ensures
            copy@ == self@,
    {
        SpellsQuerySpellsClasses { name: self.name.clone(), index: self.index.clone() }
    }
}

/// One spell of the remote list. `level` is an integer that stands for the level: a
/// greater level has a greater integer, and equal levels have equal integers.
#[derive(Debug, PartialEq, Eq)]
pub struct SpellsQuerySpells {
    pub name: Option<String>,
    pub level: i64,
    pub desc: Option<Vec<Option<String>>>,
    pub url: Option<String>,
    pub index: Option<String>,
    pub classes: Option<Vec<Option<SpellsQuerySpellsClasses>>>,
}

/// What a spell holds.
pub struct SpellView {
    pub name: Option<Seq<char>>,
    pub level: i64,
    pub desc: Option<Seq<Option<Seq<char>>>>,
    pub url: Option<Seq<char>>,
    pub index: Option<Seq<char>>,
    pub classes: Option<Seq<Option<ClassView>>>,
}

/// What the lines of a description hold.
pub open spec fn lines_view(lines: Seq<Option<String>>) -> Seq<Option<Seq<char>>> {
    lines.map_values(|line: Option<String>| text_view(line))
}

/// What an optional class holds.
pub open spec fn class_view(class: Option<SpellsQuerySpellsClasses>) -> Option<ClassView> {
    match class {
        Some(c) => Some(c@),
        None => None,
    }
}

/// What the classes of a spell hold.
pub open spec fn classes_view(classes: Seq<Option<SpellsQuerySpellsClasses>>) -> Seq<
    Option<ClassView>,
> {
    classes.map_values(|class: Option<SpellsQuerySpellsClasses>| class_view(class))
}

impl View for SpellsQuerySpells {
    type V = SpellView;

    open spec fn view(&self) -> SpellView {
        SpellView {
            name: text_view(self.name),
            level: self.level,
            desc: match self.desc {
                Some(lines) => Some(lines_view(lines@)),
                None => None,
            },
            url: text_view(self.url),
            index: text_view(self.index),
            classes: match self.classes {
                Some(classes) => Some(classes_view(classes@)),
                None => None,
            },
        }
    }
}

/// What a batch of spells holds: the view of each, in order.
pub open spec fn spells_view(spells: Seq<SpellsQuerySpells>) -> Seq<SpellView> {
    spells.map_values(|spell: SpellsQuerySpells| spell@)
}

impl Clone for SpellsQuerySpells {
    fn clone(&self) -> (copy: Self)
        ensures
            copy@ == self@,
    {
        let desc = match &self.desc {
            Some(lines) => Some(clone_lines(lines)),
            None => None,
        };
        let classes = match &self.classes {
            Some(classes) => Some(clone_classes(classes)),
            None => None,
        };
        SpellsQuerySpells {
            name: self.name.clone(),
            level: self.level,
            desc,
            url: self.url.clone(),
            index: self.index.clone(),
            classes,
        }
    }
}

/// A class of a spell as the model of a spell holds it.
#[derive(Debug, PartialEq, Eq)]
pub struct AbilityScoreSkillsModel {
    pub name: Option<String>,
    pub index: Option<String>,
}

impl View for AbilityScoreSkillsModel {
    type V = ClassView;

    open spec fn view(&self) -> ClassView {
        ClassView { name: text_view(self.name), index: text_view(self.index) }
    }
}

impl AbilityScoreSkillsModel {
    pub fn new(name: Option<String>, index: Option<String>) -> (model: AbilityScoreSkillsModel)
        ensures
            model.name == name,
            model.index == index,
    {
        AbilityScoreSkillsModel { name, index }
    }
}

/// The model of a spell: a spell of the remote list with the classes that are present.
#[derive(Debug, PartialEq, Eq)]
pub struct SpellModel {
    pub name: Option<String>,
    pub level: i64,
    pub desc: Option<Vec<Option<String>>>,
    pub url: Option<String>,
    pub index: Option<String>,
    pub classes: Option<Vec<AbilityScoreSkillsModel>>,
}

/// What the model of a spell holds.
pub struct SpellModelView {
    pub name: Option<Seq<char>>,
    pub level: i64,
    pub desc: Option<Seq<Option<Seq<char>>>>,
    pub url: Option<Seq<char>>,
    pub index: Option<Seq<char>>,
    pub classes: Option<Seq<ClassView>>,
}

impl View for SpellModel {
    type V = SpellModelView;

    open spec fn view(&self) -> SpellModelView {
        SpellModelView {
            name: text_view(self.name),
            level: self.level,
            desc: match self.desc {
                Some(lines) => Some(lines_view(lines@)),
                None => None,
            },
            url: text_view(self.url),
            index: text_view(self.index),
            classes: match self.classes {
                Some(classes) => Some(
                    classes@.map_values(|class: AbilityScoreSkillsModel| class@),
                ),
                None => None,
            },
        }
    }
}

impl SpellModel {
    pub fn new(
        name: Option<String>,
        level: i64,
        desc: Option<Vec<Option<String>>>,
        url: Option<String>,
        index: Option<String>,
        classes: Option<Vec<AbilityScoreSkillsModel>>,
    ) -> (model: SpellModel)
        ensures
            model.name == name,
            model.level == level,
            model.desc == desc,
            model.url == url,
            model.index == index,
            model.classes == classes,
    {
        SpellModel { name, level, desc, url, index, classes }
    }
}

/// A copy of the lines of a description.
pub fn clone_lines(lines: &Vec<Option<String>>) -> (copy: Vec<Option<String>>)
    ensures
        lines_view(copy@) == lines_view(lines@),
{
    let mut copy: Vec<Option<String>> = Vec::new();
    let mut i: usize = 0;
    while i < lines.len()
        invariant
            i <= lines.len(),
            copy@ == lines@.take(i as int),
        decreases lines.len() - i,
    {
        copy.push(lines[i].clone());
        assert(copy@ =~= lines@.take(i as int + 1));
        i = i + 1;
    }
    assert(copy@ =~= lines@);
    copy
}

/// A copy of the classes of a spell.
pub fn clone_classes(classes: &Vec<Option<SpellsQuerySpellsClasses>>) -> (copy: Vec<
    Option<SpellsQuerySpellsClasses>,
>)
    ensures
        classes_view(copy@) == classes_view(classes@),
{
    let mut copy: Vec<Option<SpellsQuerySpellsClasses>> = Vec::new();
    let mut i: usize = 0;
    while i < classes.len()
        invariant
            i <= classes.len(),
            classes_view(copy@) == classes_view(classes@.take(i as int)),
        decreases classes.len() - i,
    {
        let ghost before = copy@;
        let class = match &classes[i] {
            Some(c) => Some(c.clone()),
            None => None,
        };
        copy.push(class);
        assert(classes_view(copy@) =~= classes_view(classes@.take(i as int + 1))) by {
            assert(classes@.take(i as int + 1) =~= classes@.take(i as int).push(classes@[i as int]));
            assert(copy@ == before.push(class));
            assert(classes_view(before.push(class)) =~= classes_view(before).push(
                class_view(class),
            ));
            assert(classes_view(classes@.take(i as int).push(classes@[i as int]))
                =~= classes_view(classes@.take(i as int)).push(class_view(classes@[i as int])));
        }
        i = i + 1;
    }
    assert(classes@.take(i as int) =~= classes@);
    copy
}

/// A copy of a batch of spells.
pub fn clone_spells(spells: &Vec<SpellsQuerySpells>) -> (copy: Vec<SpellsQuerySpells>)
    ensures
        spells_view(copy@) == spells_view(spells@),
{
    let mut copy: Vec<SpellsQuerySpells> = Vec::new();
    let mut i: usize = 0;
    while i < spells.len()
        invariant
            i <= spells.len(),
            spells_view(copy@) == spells_view(spells@.take(i as int)),
        decreases spells.len() - i,
    {
        let ghost before = copy@;
        let spell = spells[i].clone();
        copy.push(spell);
        assert(spells_view(copy@) =~= spells_view(spells@.take(i as int + 1))) by {
            assert(spells@.take(i as int + 1) =~= spells@.take(i as int).push(spells@[i as int]));
            assert(copy@ == before.push(spell));
            assert(spells_view(before.push(spell)) =~= spells_view(before).push(spell@));
            assert(spells_view(spells@.take(i as int).push(spells@[i as int])) =~= spells_view(
                spells@.take(i as int),
            ).push(spells@[i as int]@));
        }
        i = i + 1;
    }
    assert(spells@.take(i as int) =~= spells@);
    copy
}

/// A spell as it is shown: every text is there, the empty text where the record has none.
#[derive(Clone, Debug, PartialEq, Eq)]
pub struct Spell {
    pub name: String,
    pub level: i64,
    pub desc: Vec<String>,
    pub classes: Vec<String>,
}

/// What a spell that is shown holds.
pub struct ShownSpell {
    pub name: Seq<char>,
    pub level: i64,
    pub desc: Seq<Seq<char>>,
    pub classes: Seq<Seq<char>>,
}

impl View for Spell {
    type V = ShownSpell;

    open spec fn view(&self) -> ShownSpell {
        ShownSpell {
            name: self.name@,
            level: self.level,
            desc: texts_view(self.desc@),
            classes: texts_view(self.classes@),
        }
    }
}

/// The name under which a record goes: its name, else its index, else the empty text.
pub open spec fn name_or_index(name: Option<Seq<char>>, index: Option<Seq<char>>) -> Seq<char> {
    match name {
        Some(n) => n,
        None => text_or_empty(index),
    }
}

/// The name under which a class is shown; the empty text for a class that is absent.
pub open spec fn shown_class(class: Option<ClassView>) -> Seq<char> {
    match class {
        Some(c) => name_or_index(c.name, c.index),
        None => Seq::empty(),
    }
}

/// The spell as it is shown for the record `spell`.
pub open spec fn shown(spell: SpellView) -> ShownSpell {
    ShownSpell {
        name: name_or_index(spell.name, spell.index),
        level: spell.level,
        desc: match spell.desc {
            Some(lines) => lines.map_values(|line: Option<Seq<char>>| text_or_empty(line)),
            None => Seq::empty(),
        },
        classes: match spell.classes {
            Some(classes) => classes.map_values(|class: Option<ClassView>| shown_class(class)),
            None => Seq::empty(),
        },
    }
}

/// The text of `first`, else that of `second`, else the empty text.
pub fn first_text(first: &Option<String>, second: &Option<String>) -> (text: String)
    ensures
        text@ == name_or_index(text_view(*first), text_view(*second)),
{
    match first {
        Some(text) => text.clone(),
        None => match second {
            Some(text) => text.clone(),
            None => String::new(),
        },
    }
}

/// The spell as it is shown for the record `spell`.
pub fn spell_from_spells_query_spells(spell: &SpellsQuerySpells) -> (entity: Spell)
    ensures
        entity@ == shown(spell@),
{
    let name = first_text(&spell.name, &spell.index);
    let mut desc: Vec<String> = Vec::new();
    match &spell.desc {
        Some(lines) => {
            let mut i: usize = 0;
            while i < lines.len()
                invariant
                    i <= lines.len(),
                    desc@.len() == i,
                    forall|k: int|
                        0 <= k < i ==> (#[trigger] desc@[k])@ == text_or_empty(
                            text_view(lines@[k]),
                        ),
                decreases lines.len() - i,
            {
                let line = match &lines[i] {
                    Some(text) => text.clone(),
                    None => String::new(),
                };
                desc.push(line);
                i = i + 1;
            }
            assert(texts_view(desc@) =~= lines_view(lines@).map_values(
                |line: Option<Seq<char>>| text_or_empty(line),
            ));
        },
        None => {
            assert(texts_view(desc@) =~= Seq::<Seq<char>>::empty());
        },
    }
    let mut classes: Vec<String> = Vec::new();
    match &spell.classes {
        Some(given) => {
            let mut i: usize = 0;
            while i < given.len()
                invariant
                    i <= given.len(),
                    classes@.len() == i,
                    forall|k: int|
                        0 <= k < i ==> (#[trigger] classes@[k])@ == shown_class(
                            class_view(given@[k]),
                        ),
                decreases given.len() - i,
            {
                let class = match &given[i] {
                    Some(class) => first_text(&class.name, &class.index),
                    None => String::new(),
                };
                classes.push(class);
                i = i + 1;
            }
            assert(texts_view(classes@) =~= classes_view(given@).map_values(
                |class: Option<ClassView>| shown_class(class),
            ));
        },
        None => {
            assert(texts_view(classes@) =~= Seq::<Seq<char>>::empty());
        },
    }
    Spell { name, level: spell.level, desc, classes }
}

} // verus!
