use awsome::document::{RawAppearance, RawProject, RawResource, RawWorkspace};
use awsome::error::Error;
use awsome::project::Project;
use awsome::resource_descriptor::ResourceDescriptor;
use awsome::service::Service;
use awsome::workspace::Workspace;
use serde_yaml::{Mapping, Value};

fn raw_resource(profile: &str, region: &str, service: &str, id: &str) -> RawResource {
    RawResource {
        profile: profile.to_string(),
        region: region.to_string(),
        service: service.to_string(),
        id: id.to_string(),
    }
}

fn empty_appearance() -> RawAppearance {
    RawAppearance { selected_project: None, selected_service: None, selected_resource: None }
}

// ----- moving documents through the real text format -----

fn resource_to_value(r: &RawResource) -> Value {
    let mut m = Mapping::new();
    m.insert(Value::String("profile".to_string()), Value::String(r.profile.clone()));
    m.insert(Value::String("region".to_string()), Value::String(r.region.clone()));
    m.insert(Value::String("service".to_string()), Value::String(r.service.clone()));
    m.insert(Value::String("id".to_string()), Value::String(r.id.clone()));
    Value::Mapping(m)
}

fn project_to_value(p: &RawProject) -> Value {
    let mut m = Mapping::new();
    m.insert(Value::String("id".to_string()), Value::String(p.id.clone()));
    m.insert(Value::String("name".to_string()), Value::String(p.name.clone()));
    m.insert(
        Value::String("resources".to_string()),
        Value::Sequence(p.resources.iter().map(resource_to_value).collect()),
    );
    Value::Mapping(m)
}

fn workspace_to_value(w: &RawWorkspace) -> Value {
    let mut appearance = Mapping::new();
    if let Some(p) = &w.appearance.selected_project {
        appearance.insert(Value::String("selected_project".to_string()), project_to_value(p));
    }
    if let Some(s) = &w.appearance.selected_service {
        appearance.insert(
            Value::String("selected_service".to_string()),
            Value::String(s.clone()),
        );
    }
    if let Some(r) = &w.appearance.selected_resource {
        appearance.insert(Value::String("selected_resource".to_string()), resource_to_value(r));
    }
    let mut m = Mapping::new();
    m.insert(
        Value::String("projects".to_string()),
        Value::Sequence(w.projects.iter().map(project_to_value).collect()),
    );
    m.insert(Value::String("appearance".to_string()), Value::Mapping(appearance));
    Value::Mapping(m)
}

fn value_to_resource(v: &Value) -> RawResource {
    raw_resource(
        v.get("profile").unwrap().as_str().unwrap(),
        v.get("region").unwrap().as_str().unwrap(),
        v.get("service").unwrap().as_str().unwrap(),
        v.get("id").unwrap().as_str().unwrap(),
    )
}

fn value_to_project(v: &Value) -> RawProject {
    RawProject {
        id: v.get("id").unwrap().as_str().unwrap().to_string(),
        name: v.get("name").unwrap().as_str().unwrap().to_string(),
        resources: v
            .get("resources")
            .unwrap()
            .as_sequence()
            .unwrap()
            .iter()
            .map(value_to_resource)
            .collect(),
    }
}

fn value_to_workspace(v: &Value) -> RawWorkspace {
    let appearance = v.get("appearance").unwrap();
    RawWorkspace {
        projects: v
            .get("projects")
            .unwrap()
            .as_sequence()
            .unwrap()
            .iter()
            .map(value_to_project)
            .collect(),
        appearance: RawAppearance {
            selected_project: appearance.get("selected_project").map(value_to_project),
            selected_service: appearance
                .get("selected_service")
                .map(|s| s.as_str().unwrap().to_string()),
            selected_resource: appearance.get("selected_resource").map(value_to_resource),
        },
    }
}

fn descriptor(profile: &str, region: &str, service: Service, id: &str) -> ResourceDescriptor {
    ResourceDescriptor {
        profile: profile.to_string(),
        region: region.to_string(),
        service,
        id: id.to_string(),
    }
}

// ----- the tests -----

#[test]
fn empty_load_yields_nothing_selected_and_no_projects() {
    let w = Workspace::load(None).unwrap();
    assert!(w.projects.is_empty());
    assert!(w.appearance.selected_project.is_none());
    assert!(w.appearance.selected_service.is_none());
    assert!(w.appearance.selected_resource.is_none());
    assert!(w.path.is_none());
}

#[test]
fn saves_without_a_recorded_path_target_the_default_file() {
    let w = Workspace::load(None).unwrap();
    assert_eq!(w.save().path, "workspace.yaml");
}

#[test]
fn saves_keep_targeting_the_loaded_file() {
    let raw = RawWorkspace { projects: vec![], appearance: empty_appearance() };
    let w = Workspace::load(Some(("team.yaml".to_string(), raw))).unwrap();
    assert_eq!(w.path.as_deref(), Some("team.yaml"));
    assert_eq!(w.save().path, "team.yaml");
}

#[test]
fn malformed_service_tag_fails_deserialization() {
    let raw = RawWorkspace {
        projects: vec![RawProject {
            id: "abc".to_string(),
            name: "Demo".to_string(),
            resources: vec![raw_resource("dev", "us-east-1", "EC2", "boxy")],
        }],
        appearance: empty_appearance(),
    };
    let r = Workspace::load(Some(("workspace.yaml".to_string(), raw)));
    assert_eq!(r.unwrap_err(), Error::DeserializationError);
}

#[test]
fn malformed_selected_resource_fails_deserialization() {
    let raw = RawWorkspace {
        projects: vec![],
        appearance: RawAppearance {
            selected_project: None,
            selected_service: None,
            selected_resource: Some(raw_resource("dev", "us-east-1", "Glacier", "x")),
        },
    };
    let r = Workspace::load(Some(("workspace.yaml".to_string(), raw)));
    assert_eq!(r.unwrap_err(), Error::DeserializationError);
}

#[test]
fn malformed_selected_project_fails_deserialization() {
    let raw = RawWorkspace {
        projects: vec![],
        appearance: RawAppearance {
            selected_project: Some(RawProject {
                id: "abc".to_string(),
                name: "Demo".to_string(),
                resources: vec![raw_resource("dev", "us-east-1", "SQS", "queue")],
            }),
            selected_service: None,
            selected_resource: None,
        },
    };
    let r = Workspace::load(Some(("workspace.yaml".to_string(), raw)));
    assert_eq!(r.unwrap_err(), Error::DeserializationError);
}

#[test]
fn save_then_load_restores_projects_and_appearance() {
    let mut w = Workspace::load(None).unwrap();
    let mut demo = Project::new("Demo");
    demo.resources.push(descriptor("dev", "us-east-1", Service::S3, "my-bucket"));
    demo.resources.push(descriptor("dev", "us-east-1", Service::Lambda, "fn-one"));
    w.add_project(demo.clone());
    w.add_project(Project::new("Scratch"));
    let request = w.set_selected_resource(Some(descriptor(
        "dev",
        "us-east-1",
        Service::S3,
        "my-bucket",
    )));

    let reloaded = Workspace::load(Some((request.path, request.document))).unwrap();
    assert_eq!(reloaded.projects, w.projects);
    assert_eq!(reloaded.appearance.selected_project, w.appearance.selected_project);
    assert_eq!(reloaded.appearance.selected_service, w.appearance.selected_service);
    assert_eq!(reloaded.appearance.selected_resource, w.appearance.selected_resource);
}

#[test]
fn save_then_load_round_trips_through_the_text_format() {
    let mut w = Workspace::load(None).unwrap();
    let mut demo = Project::new("Demo");
    demo.resources.push(descriptor("dev", "us-east-1", Service::S3, "my-bucket"));
    w.add_project(demo);
    let request = w.set_selected_resource(Some(descriptor(
        "dev",
        "us-east-1",
        Service::S3,
        "my-bucket",
    )));

    let text = serde_yaml::to_string(&workspace_to_value(&request.document)).unwrap();
    let parsed: Value = serde_yaml::from_str(&text).unwrap();
    let raw = value_to_workspace(&parsed);
    let reloaded = Workspace::load(Some((request.path, raw))).unwrap();
    assert_eq!(reloaded.projects, w.projects);
    assert_eq!(reloaded.appearance.selected_resource, w.appearance.selected_resource);
}

#[test]
fn add_project_is_durable_in_the_saved_document() {
    let mut w = Workspace::load(None).unwrap();
    let p = Project::new("New Project");
    let request = w.add_project(p.clone());
    assert_eq!(w.projects.len(), 1);
    let reloaded = Workspace::load(Some((request.path, request.document))).unwrap();
    assert!(reloaded.projects.contains(&p));
}

#[test]
fn set_selected_resource_overwrites_the_selection() {
    let mut w = Workspace::load(None).unwrap();
    let first = descriptor("dev", "us-east-1", Service::Lambda, "fn-one");
    let second = descriptor("dev", "us-east-1", Service::S3, "my-bucket");
    w.set_selected_resource(Some(first));
    let request = w.set_selected_resource(Some(second.clone()));
    assert_eq!(w.appearance.selected_resource, Some(second.clone()));
    let reloaded = Workspace::load(Some((request.path, request.document))).unwrap();
    assert_eq!(reloaded.appearance.selected_resource, Some(second));
    w.set_selected_resource(None);
    assert_eq!(w.appearance.selected_resource, None);
}

#[test]
fn loading_a_written_file_body_restores_the_scenario() {
    let text = "projects:\n\
                - id: abc\n\
                \x20 name: Demo\n\
                \x20 resources:\n\
                \x20 - profile: dev\n\
                \x20   region: us-east-1\n\
                \x20   service: S3\n\
                \x20   id: my-bucket\n\
                appearance: {}\n";
    let parsed: Value = serde_yaml::from_str(text).unwrap();
    let raw = value_to_workspace(&parsed);
    let w = Workspace::load(Some(("demo.yaml".to_string(), raw))).unwrap();
    assert_eq!(w.projects.len(), 1);
    let p = &w.projects[0];
    assert_eq!(p.id, "abc");
    assert_eq!(p.name, "Demo");
    assert_eq!(p.resources[0].id, "my-bucket");
    let services = p.get_services();
    assert_eq!(services.len(), 1);
    assert!(services.contains(&Service::S3));
}

#[test]
fn unknown_tag_in_a_written_file_body_is_rejected() {
    let text = "projects:\n\
                - id: abc\n\
                \x20 name: Demo\n\
                \x20 resources:\n\
                \x20 - profile: dev\n\
                \x20   region: us-east-1\n\
                \x20   service: EC2\n\
                \x20   id: boxy\n\
                appearance: {}\n";
    let parsed: Value = serde_yaml::from_str(text).unwrap();
    let raw = value_to_workspace(&parsed);
    let r = Workspace::load(Some(("demo.yaml".to_string(), raw)));
    assert_eq!(r.unwrap_err(), Error::DeserializationError);
}
