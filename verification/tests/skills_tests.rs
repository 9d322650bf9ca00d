use neko::skills::{skills_to_prompt_xml, validate_skill_name, Skill};

#[test]
fn test_validate_skill_name() {
    assert!(validate_skill_name("pdf-processing").is_ok());
    assert!(validate_skill_name("data-analysis").is_ok());
    assert!(validate_skill_name("myskill").is_ok());

    assert!(validate_skill_name("").is_err());
    assert!(validate_skill_name("-bad").is_err());
    assert!(validate_skill_name("bad-").is_err());
    assert!(validate_skill_name("bad--name").is_err());
    assert!(validate_skill_name("Bad").is_err());
}

#[test]
fn test_skills_to_prompt_xml() {
    let skills = vec![Skill {
        name: "test".to_string(),
        description: "Test skill".to_string(),
        license: None,
        compatibility: None,
        metadata: Vec::new(),
        allowed_tools: vec![],
        instructions: "Do stuff".to_string(),
        path: "/skills/test".to_string(),
    }];

    let xml = skills_to_prompt_xml(&skills);
    assert!(xml.contains("<available_skills>"));
    assert!(xml.contains("<name>test</name>"));
    assert!(xml.contains("<description>Test skill</description>"));
}

#[test]
fn skills_xml_empty_for_no_skills() {
    let xml = skills_to_prompt_xml(&Vec::new());
    assert_eq!(xml, "");
}

#[test]
fn skill_xml_location_includes_skill_file() {
    let skills = vec![Skill {
        name: "alpha".to_string(),
        description: "A".to_string(),
        license: None,
        compatibility: None,
        metadata: Vec::new(),
        allowed_tools: vec![],
        instructions: String::new(),
        path: "/w/skills/alpha".to_string(),
    }];
    let xml = skills_to_prompt_xml(&skills);
    assert!(xml.contains("<location>/w/skills/alpha/SKILL.md</location>"));
    assert!(xml.ends_with("</available_skills>"));
}

#[test]
fn frontmatter_split_roundtrip() {
    let content = "---\nname: my-skill\ndescription: Does stuff.\n---\n\nInstructions here.\n";
    let (yaml, body) = neko::skills::split_frontmatter(content).unwrap();
    assert_eq!(yaml, "\nname: my-skill\ndescription: Does stuff.\n");
    assert_eq!(neko::skills::trim_str(&body), "Instructions here.");
}

#[test]
fn frontmatter_split_rejects_missing_marker() {
    assert!(neko::skills::split_frontmatter("name: x\n").is_none());
    assert!(neko::skills::split_frontmatter("---\nname: x\n").is_none());
}
