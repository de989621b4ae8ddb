//! The built-in project templates offered on the Templates screen.

use vstd::prelude::*;

verus! {

/// Icon shown on a template card.
#[derive(Clone, Copy, Debug, PartialEq, Eq, Structural)]
pub enum TemplateIcon {
    Folder,
    Settings,
    Gamepad,
    WorldMap,
    Eye,
    Cube,
    Shield,
    Star,
    BookOpen,
    Box,
    CreditCard,
    Rocket,
}

/// A project template: a git repository cloned to start a new project.
#[derive(Clone, Debug)]
pub struct Template {
    pub name: String,
    pub description: String,
    pub icon: TemplateIcon,
    pub repo_url: String,
    pub category: String,
}

/// A template's fields as text: name, description, icon, repository URL
/// and category.
pub open spec fn template_fields(t: Template) -> (
    Seq<char>,
    Seq<char>,
    TemplateIcon,
    Seq<char>,
    Seq<char>,
) {
    (t.name@, t.description@, t.icon, t.repo_url@, t.category@)
}

impl Template {
    pub fn new(name: &str, desc: &str, icon: TemplateIcon, repo_url: &str, category: &str) -> (r:
        Self)
        ensures
            template_fields(r) == (name@, desc@, icon, repo_url@, category@),
    {
        broadcast use vstd::string::to_string_from_display_ensures_for_str;

        Template {
            name: name.to_string(),
            description: desc.to_string(),
            icon,
            repo_url: repo_url.to_string(),
            category: category.to_string(),
        }
    }
}

/// The built-in templates, in the order the Templates screen lists them.
pub open spec fn spec_default_templates() -> Seq<
    (Seq<char>, Seq<char>, TemplateIcon, Seq<char>, Seq<char>),
> {
    seq![
        (
            "Blank Project"@,
            "Empty project with minimal structure"@,
            TemplateIcon::Folder,
            "https://github.com/Far-Beyond-Pulsar/Template-Blank"@,
            "Basic"@,
        ),
        (
            "Core"@,
            "Core engine features and systems"@,
            TemplateIcon::Settings,
            "https://github.com/pulsar-templates/core.git"@,
            "Basic"@,
        ),
        (
            "2D Platformer"@,
            "Classic side-scrolling platformer"@,
            TemplateIcon::Gamepad,
            "https://github.com/pulsar-templates/2d-platformer.git"@,
            "2D"@,
        ),
        (
            "2D Top-Down"@,
            "Top-down 2D game with camera"@,
            TemplateIcon::WorldMap,
            "https://github.com/pulsar-templates/2d-topdown.git"@,
            "2D"@,
        ),
        (
            "3D First Person"@,
            "FPS with movement and camera"@,
            TemplateIcon::Eye,
            "https://github.com/pulsar-templates/3d-fps.git"@,
            "3D"@,
        ),
        (
            "3D Platformer"@,
            "3D platformer with physics"@,
            TemplateIcon::Cube,
            "https://github.com/pulsar-templates/3d-platformer.git"@,
            "3D"@,
        ),
        (
            "Tower Defense"@,
            "Wave-based tower defense"@,
            TemplateIcon::Shield,
            "https://github.com/pulsar-templates/tower-defense.git"@,
            "Strategy"@,
        ),
        (
            "Action RPG"@,
            "Action-oriented RPG systems"@,
            TemplateIcon::Star,
            "https://github.com/pulsar-templates/action-rpg.git"@,
            "RPG"@,
        ),
        (
            "Visual Novel"@,
            "Narrative-driven visual novel"@,
            TemplateIcon::BookOpen,
            "https://github.com/pulsar-templates/visual-novel.git"@,
            "Narrative"@,
        ),
        (
            "Puzzle"@,
            "Puzzle game mechanics"@,
            TemplateIcon::Box,
            "https://github.com/pulsar-templates/puzzle.git"@,
            "Puzzle"@,
        ),
        (
            "Card Game"@,
            "Card-based game system"@,
            TemplateIcon::CreditCard,
            "https://github.com/pulsar-templates/card-game.git"@,
            "Card"@,
        ),
        (
            "Racing"@,
            "Racing game with physics"@,
            TemplateIcon::Rocket,
            "https://github.com/pulsar-templates/racing.git"@,
            "Racing"@,
        ),
    ]
}

/// The built-in templates.
pub fn get_default_templates() -> (r: Vec<Template>)
    ensures
        r@.len() == spec_default_templates().len(),
        forall|i: int|
            0 <= i < r@.len() ==> template_fields(#[trigger] r@[i]) == spec_default_templates()[i],
{
    let r = vec![
        Template::new(
            "Blank Project",
            "Empty project with minimal structure",
            TemplateIcon::Folder,
            "https://github.com/Far-Beyond-Pulsar/Template-Blank",
            "Basic",
        ),
        Template::new(
            "Core",
            "Core engine features and systems",
            TemplateIcon::Settings,
            "https://github.com/pulsar-templates/core.git",
            "Basic",
        ),
        Template::new(
            "2D Platformer",
            "Classic side-scrolling platformer",
            TemplateIcon::Gamepad,
            "https://github.com/pulsar-templates/2d-platformer.git",
            "2D",
        ),
        Template::new(
            "2D Top-Down",
            "Top-down 2D game with camera",
            TemplateIcon::WorldMap,
            "https://github.com/pulsar-templates/2d-topdown.git",
            "2D",
        ),
        Template::new(
            "3D First Person",
            "FPS with movement and camera",
            TemplateIcon::Eye,
            "https://github.com/pulsar-templates/3d-fps.git",
            "3D",
        ),
        Template::new(
            "3D Platformer",
            "3D platformer with physics",
            TemplateIcon::Cube,
            "https://github.com/pulsar-templates/3d-platformer.git",
            "3D",
        ),
        Template::new(
            "Tower Defense",
            "Wave-based tower defense",
            TemplateIcon::Shield,
            "https://github.com/pulsar-templates/tower-defense.git",
            "Strategy",
        ),
        Template::new(
            "Action RPG",
            "Action-oriented RPG systems",
            TemplateIcon::Star,
            "https://github.com/pulsar-templates/action-rpg.git",
            "RPG",
        ),
        Template::new(
            "Visual Novel",
            "Narrative-driven visual novel",
            TemplateIcon::BookOpen,
            "https://github.com/pulsar-templates/visual-novel.git",
            "Narrative",
        ),
        Template::new(
            "Puzzle",
            "Puzzle game mechanics",
            TemplateIcon::Box,
            "https://github.com/pulsar-templates/puzzle.git",
            "Puzzle",
        ),
        Template::new(
            "Card Game",
            "Card-based game system",
            TemplateIcon::CreditCard,
            "https://github.com/pulsar-templates/card-game.git",
            "Card",
        ),
        Template::new(
            "Racing",
            "Racing game with physics",
            TemplateIcon::Rocket,
            "https://github.com/pulsar-templates/racing.git",
            "Racing",
        ),
    ];
    r
}

} // verus!
