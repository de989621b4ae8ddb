use pulsar_hub::templates::{get_default_templates, Template, TemplateIcon};

#[test]
fn default_templates_start_with_blank_project() {
    let templates = get_default_templates();
    assert_eq!(templates.len(), 12);
    assert_eq!(templates[0].name, "Blank Project");
    assert_eq!(templates[0].icon, TemplateIcon::Folder);
    assert_eq!(templates[0].repo_url, "https://github.com/Far-Beyond-Pulsar/Template-Blank");
    assert_eq!(templates[11].name, "Racing");
    assert_eq!(templates[11].category, "Racing");
    assert_eq!(templates[3].icon, TemplateIcon::WorldMap);
}

#[test]
fn template_new_keeps_fields() {
    let t = Template::new("A", "B", TemplateIcon::Star, "https://x/y.git", "C");
    assert_eq!(
        (t.name.as_str(), t.description.as_str(), t.icon, t.repo_url.as_str(), t.category.as_str()),
        ("A", "B", TemplateIcon::Star, "https://x/y.git", "C")
    );
}
