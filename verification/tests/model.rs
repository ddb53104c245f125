use std::collections::hash_map::DefaultHasher;
use std::hash::{Hash, Hasher};

use awsome::appearance::Appearance;
use awsome::error::{classify_sdk_failure, Error, ResolutionError, SdkFailureKind};
use awsome::pane::{Pane, PaneId};
use awsome::project::Project;
use awsome::resource_descriptor::ResourceDescriptor;
use awsome::service::Service;

fn descriptor(profile: &str, region: &str, service: Service, id: &str) -> ResourceDescriptor {
    ResourceDescriptor {
        profile: profile.to_string(),
        region: region.to_string(),
        service,
        id: id.to_string(),
    }
}

fn hash_of<T: Hash>(value: &T) -> u64 {
    let mut hasher = DefaultHasher::new();
    value.hash(&mut hasher);
    hasher.finish()
}

#[test]
fn descriptor_equality_over_all_fields() {
    let a = descriptor("dev", "us-east-1", Service::S3, "my-bucket");
    let b = descriptor("dev", "us-east-1", Service::S3, "my-bucket");
    assert_eq!(a, b);
    assert_ne!(a, descriptor("prod", "us-east-1", Service::S3, "my-bucket"));
    assert_ne!(a, descriptor("dev", "eu-west-1", Service::S3, "my-bucket"));
    assert_ne!(a, descriptor("dev", "us-east-1", Service::Lambda, "my-bucket"));
    assert_ne!(a, descriptor("dev", "us-east-1", Service::S3, "other-bucket"));
}

#[test]
fn descriptor_equal_values_hash_identically() {
    let a = descriptor("dev", "us-east-1", Service::Lambda, "fn-one");
    let b = descriptor("dev", "us-east-1", Service::Lambda, "fn-one");
    assert_eq!(hash_of(&a), hash_of(&b));
}

#[test]
fn descriptor_display_name_is_the_identifier() {
    let a = descriptor("dev", "us-east-1", Service::Lambda, "fn-one");
    assert_eq!(a.get_display_name(), "fn-one");
    let b = descriptor("dev", "us-east-1", Service::S3, "my-bucket");
    assert_eq!(b.get_display_name(), "my-bucket");
}

#[test]
fn service_names_and_tags() {
    assert_eq!(Service::Lambda.name(), "Lambda");
    assert_eq!(Service::S3.name(), "S3");
    assert_eq!(Service::from_tag("Lambda"), Some(Service::Lambda));
    assert_eq!(Service::from_tag("S3"), Some(Service::S3));
    assert_eq!(Service::from_tag("EC2"), None);
    assert_eq!(Service::from_tag(""), None);
    assert_eq!(Service::from_tag("lambda"), None);
}

#[test]
fn project_services_are_distinct_and_order_independent() {
    let mut p = Project::new("Demo");
    p.resources.push(descriptor("dev", "us-east-1", Service::Lambda, "fn-one"));
    p.resources.push(descriptor("dev", "us-east-1", Service::S3, "my-bucket"));
    p.resources.push(descriptor("dev", "us-east-1", Service::Lambda, "fn-two"));
    let services = p.get_services();
    assert_eq!(services.len(), 2);
    assert!(services.contains(&Service::Lambda));
    assert!(services.contains(&Service::S3));

    let mut q = Project::new("Demo reversed");
    q.resources.push(descriptor("dev", "us-east-1", Service::S3, "my-bucket"));
    q.resources.push(descriptor("dev", "us-east-1", Service::Lambda, "fn-two"));
    q.resources.push(descriptor("dev", "us-east-1", Service::Lambda, "fn-one"));
    let services = q.get_services();
    assert_eq!(services.len(), 2);
    assert!(services.contains(&Service::Lambda));
    assert!(services.contains(&Service::S3));
}

#[test]
fn project_without_resources_has_no_services() {
    let p = Project::new("Empty");
    assert!(p.get_services().is_empty());
}

#[test]
fn new_projects_get_fresh_nonempty_ids() {
    let a = Project::new("New Project");
    let b = Project::new("New Project");
    assert_eq!(a.name, "New Project");
    assert!(a.resources.is_empty());
    assert_eq!(a.id.len(), 26);
    assert!(!a.id.is_empty());
    assert_ne!(a.id, b.id);
}

#[test]
fn appearance_default_is_fully_absent() {
    let a = Appearance::default();
    assert!(a.selected_project.is_none());
    assert!(a.selected_service.is_none());
    assert!(a.selected_resource.is_none());
}

#[test]
fn error_messages() {
    assert_eq!(Error::Unknown.message(), "Unknown error");
    assert_eq!(Error::IoError.message(), "I/O error");
    assert_eq!(Error::DeserializationError.message(), "Deserialization error");
    assert_eq!(Error::SerializationError.message(), "Serialization error");
    assert_eq!(
        Error::Resolution(ResolutionError::NotFound).message(),
        "Resource not found"
    );
    assert_eq!(
        Error::Resolution(ResolutionError::InvalidDescriptor).message(),
        "Invalid resource descriptor"
    );
    assert_eq!(
        ResolutionError::TransportError("timed out".to_string()).message(),
        "AWS SDK error: timed out"
    );
}

#[test]
fn sdk_failures_below_the_service_become_transport_errors() {
    for kind in [
        SdkFailureKind::Construction,
        SdkFailureKind::Timeout,
        SdkFailureKind::Dispatch,
        SdkFailureKind::Response,
    ] {
        let e = classify_sdk_failure(kind, "no route".to_string());
        assert_eq!(
            e,
            Error::Resolution(ResolutionError::TransportError("no route".to_string()))
        );
    }
}

#[test]
fn sdk_service_errors_stay_unclassified() {
    assert_eq!(
        classify_sdk_failure(SdkFailureKind::Service, "denied".to_string()),
        Error::Unknown
    );
    assert_eq!(
        classify_sdk_failure(SdkFailureKind::Other, "denied".to_string()),
        Error::Unknown
    );
}

#[test]
fn resolution_errors_convert_into_the_library_error() {
    let e: Error = ResolutionError::NotFound.into();
    assert_eq!(e, Error::Resolution(ResolutionError::NotFound));
}

#[test]
fn panes_keep_their_identity() {
    assert_eq!(Pane::new(PaneId::ServiceSelector).id, PaneId::ServiceSelector);
    assert_eq!(Pane::new(PaneId::ResourceSelector).id, PaneId::ResourceSelector);
    assert_eq!(Pane::new(PaneId::ResourceDetails).id, PaneId::ResourceDetails);
    assert_eq!(PaneId::ServiceSelector.title(), "Service Selector");
    assert_eq!(PaneId::ResourceSelector.title(), "Resource Selector");
    assert_eq!(PaneId::ResourceDetails.title(), "Resource Details");
}
