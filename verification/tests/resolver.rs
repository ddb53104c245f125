use awsome::error::ResolutionError;
use awsome::resource::{
    BucketInfo, LambdaFunctionDetails, LambdaFunctionInfo, Resource, S3BucketDetails,
};
use awsome::resource_descriptor::ResourceDescriptor;
use awsome::service::Service;

fn descriptor(service: Service, id: &str) -> ResourceDescriptor {
    ResourceDescriptor {
        profile: "dev".to_string(),
        region: "us-east-1".to_string(),
        service,
        id: id.to_string(),
    }
}

fn function(name: Option<&str>) -> LambdaFunctionInfo {
    LambdaFunctionInfo { name: name.map(|n| n.to_string()) }
}

fn bucket(name: Option<&str>) -> BucketInfo {
    BucketInfo { name: name.map(|n| n.to_string()) }
}

fn display_names(resources: &[Resource]) -> Vec<String> {
    resources.iter().map(|r| r.get_display_name()).collect()
}

#[test]
fn lambda_configuration_resolves_to_the_function() {
    let rd = descriptor(Service::Lambda, "fn-one");
    let r = LambdaFunctionDetails::resource_from_configuration(&rd, Some(function(Some("fn-one"))));
    match r.unwrap() {
        Resource::LambdaFunction(f) => assert_eq!(f.name.as_deref(), Some("fn-one")),
        Resource::S3Bucket(_) => panic!("resolved to the wrong service"),
    }
}

#[test]
fn lambda_lookup_without_configuration_is_not_found() {
    let rd = descriptor(Service::Lambda, "fn-one");
    let r = LambdaFunctionDetails::resource_from_configuration(&rd, None);
    assert_eq!(r.unwrap_err(), ResolutionError::NotFound);
}

#[test]
fn lambda_resolver_rejects_a_bucket_descriptor() {
    let rd = descriptor(Service::S3, "my-bucket");
    let r = LambdaFunctionDetails::resource_from_configuration(&rd, Some(function(Some("x"))));
    assert_eq!(r.unwrap_err(), ResolutionError::InvalidDescriptor);
}

#[test]
fn bucket_is_found_in_the_listing_by_name() {
    let rd = descriptor(Service::S3, "my-bucket");
    let buckets = vec![bucket(Some("logs")), bucket(Some("my-bucket")), bucket(None)];
    let r = S3BucketDetails::resource_from_listing(&rd, &buckets);
    match r.unwrap() {
        Resource::S3Bucket(b) => assert_eq!(b.name.as_deref(), Some("my-bucket")),
        Resource::LambdaFunction(_) => panic!("resolved to the wrong service"),
    }
}

#[test]
fn bucket_missing_from_the_listing_is_not_found() {
    let rd = descriptor(Service::S3, "my-bucket");
    let buckets = vec![bucket(Some("logs")), bucket(None)];
    let r = S3BucketDetails::resource_from_listing(&rd, &buckets);
    assert_eq!(r.unwrap_err(), ResolutionError::NotFound);
}

#[test]
fn bucket_resolver_rejects_a_lambda_descriptor() {
    let rd = descriptor(Service::Lambda, "fn-one");
    let r = S3BucketDetails::resource_from_listing(&rd, &vec![bucket(Some("fn-one"))]);
    assert_eq!(r.unwrap_err(), ResolutionError::InvalidDescriptor);
}

#[test]
fn lambda_listing_is_collated_in_name_order() {
    let functions = vec![
        function(Some("gamma")),
        function(None),
        function(Some("alpha")),
        function(Some("beta")),
    ];
    let resources = LambdaFunctionDetails::collate_listing(functions);
    assert_eq!(resources.len(), 4);
    assert!(resources.iter().all(|r| matches!(r, Resource::LambdaFunction(_))));
    assert_eq!(display_names(&resources), vec!["Unnamed", "alpha", "beta", "gamma"]);
}

#[test]
fn bucket_listing_is_collated_in_name_order() {
    let buckets = vec![bucket(Some("zeta")), bucket(Some("Alpha")), bucket(Some("archive"))];
    let resources = S3BucketDetails::collate_listing(buckets);
    assert_eq!(resources.len(), 3);
    assert!(resources.iter().all(|r| matches!(r, Resource::S3Bucket(_))));
    // Case-sensitive code point order: capitals sort before lower case.
    assert_eq!(display_names(&resources), vec!["Alpha", "archive", "zeta"]);
}

#[test]
fn empty_listing_collates_to_nothing() {
    assert!(LambdaFunctionDetails::collate_listing(vec![]).is_empty());
    assert!(S3BucketDetails::collate_listing(vec![]).is_empty());
    let _ = LambdaFunctionDetails::new();
    let _ = S3BucketDetails::new();
}

#[test]
fn unnamed_resources_display_a_placeholder() {
    let r = Resource::S3Bucket(bucket(None));
    assert_eq!(r.get_display_name(), "Unnamed");
    let f = Resource::LambdaFunction(Box::new(function(None)));
    assert_eq!(f.get_display_name(), "Unnamed");
    let g = Resource::LambdaFunction(Box::new(function(Some("fn-one"))));
    assert_eq!(g.get_display_name(), "fn-one");
}
