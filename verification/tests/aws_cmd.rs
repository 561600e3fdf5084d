use rtk_core::commands::aws_cmd::AwsModule;
use rtk_core::commands::CommandModule;
use rtk_core::Context;

fn make_context(command: &str, exit_code: i32) -> Context {
    Context {
        cwd: "/tmp".to_string(),
        exit_code,
        tool: "bash".to_string(),
        session_id: None,
        command: Some(command.to_string()),
    }
}

#[test]
fn test_aws_s3_ls_json() {
    let module = AwsModule::new();
    let input = r#"{
"Buckets": [
    {"Name": "bucket1", "CreationDate": "2024-01-01"},
    {"Name": "bucket2", "CreationDate": "2024-01-02"},
    {"Name": "bucket3", "CreationDate": "2024-01-03"}
]
}"#;
    let result = module
        .compress(input, &make_context("aws s3api list-buckets", 0))
        .unwrap();

    assert!(result.contains("Buckets: 3"));
}

#[test]
fn test_aws_error() {
    let module = AwsModule::new();
    let input = r#"{
"Error": {
    "Code": "NoSuchBucket",
    "Message": "The specified bucket does not exist"
}
}"#;
    let result = module
        .compress(
            input,
            &make_context("aws s3api get-bucket --bucket nonexistent", 254),
        )
        .unwrap();

    assert!(result.contains("Error") || result.contains("NoSuchBucket"));
}

#[test]
fn test_aws_dynamodb_scan() {
    let module = AwsModule::new();
    let input = r#"{
"Items": [
    {"id": "1", "name": "Item 1"},
    {"id": "2", "name": "Item 2"},
    {"id": "3", "name": "Item 3"}
],
"Count": 3
}"#;
    let result = module
        .compress(
            input,
            &make_context("aws dynamodb scan --table-name MyTable", 0),
        )
        .unwrap();

    assert!(result.contains("Items: 3 records"));
}

#[test]
fn test_aws_paginated_response() {
    let module = AwsModule::new();
    let input = r#"{
"Items": [
    {"id": "1"}
],
"NextToken": "eyJ..."
}"#;
    let result = module
        .compress(
            input,
            &make_context("aws dynamodb scan --table-name MyTable", 0),
        )
        .unwrap();

    assert!(result.contains("paginated"));
}

#[test]
fn test_aws_table_output() {
    let module = AwsModule::new();
    let input = r#"---------------------------------------------
|              ListBuckets                   |
---------------------------------------------
|            Name            |   CreationDate|
---------------------------------------------
|  bucket1                   |  2024-01-01   |
|  bucket2                   |  2024-01-02   |
|  bucket3                   |  2024-01-03   |
---------------------------------------------
"#;
    let result = module
        .compress(
            input,
            &make_context("aws s3api list-buckets --output table", 0),
        )
        .unwrap();

    assert!(result.contains("Rows: 3") || result.contains("Columns:"));
}

#[test]
fn test_aws_empty_output() {
    let module = AwsModule::new();
    let result = module.compress("", &make_context("aws", 0)).unwrap();

    assert_eq!(result, "(no output)");
}

#[test]
fn test_aws_lambda_list() {
    let module = AwsModule::new();
    let input = r#"{
"Functions": [
    {"FunctionName": "func1", "Runtime": "python3.9"},
    {"FunctionName": "func2", "Runtime": "nodejs18.x"}
]
}"#;
    let result = module
        .compress(input, &make_context("aws lambda list-functions", 0))
        .unwrap();

    assert!(result.contains("Functions: 2"));
}

#[test]
fn test_aws_ec2_describe() {
    let module = AwsModule::new();
    let input = r#"{
"Reservations": [
    {
        "Instances": [
            {"InstanceId": "i-123", "State": {"Name": "running"}}
        ]
    },
    {
        "Instances": [
            {"InstanceId": "i-456", "State": {"Name": "stopped"}}
        ]
    }
]
}"#;
    let result = module
        .compress(input, &make_context("aws ec2 describe-instances", 0))
        .unwrap();

    assert!(result.contains("Instances: 2"));
}

#[test]
fn test_aws_sns_list() {
    let module = AwsModule::new();
    let input = r#"{
"Topics": [
    {"TopicArn": "arn:aws:sns:us-east-1:123:topic1"},
    {"TopicArn": "arn:aws:sns:us-east-1:123:topic2"}
]
}"#;
    let result = module
        .compress(input, &make_context("aws sns list-topics", 0))
        .unwrap();

    assert!(result.contains("Topics: 2"));
}

#[test]
fn test_aws_sqs_list() {
    let module = AwsModule::new();
    let input = r#"{
"QueueUrls": [
    "https://sqs.us-east-1.amazonaws.com/123/queue1",
    "https://sqs.us-east-1.amazonaws.com/123/queue2",
    "https://sqs.us-east-1.amazonaws.com/123/queue3"
]
}"#;
    let result = module
        .compress(input, &make_context("aws sqs list-queues", 0))
        .unwrap();

    assert!(result.contains("Queues: 3"));
}

#[test]
fn test_aws_json_array() {
    let module = AwsModule::new();
    let input = r#"["item1", "item2", "item3"]"#;
    let result = module
        .compress(input, &make_context("aws some-command", 0))
        .unwrap();

    assert!(result.contains("Array: 3 items"));
}

#[test]
fn test_aws_generic_object() {
    let module = AwsModule::new();
    let input = r#"{
"SomeField": "value",
"AnotherField": 123,
"ThirdField": true
}"#;
    let result = module
        .compress(input, &make_context("aws some-command", 0))
        .unwrap();

    assert!(result.contains("Fields:"));
}
