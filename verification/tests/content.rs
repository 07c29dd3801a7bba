use agent_harness::messages::{BlockContent, Content, ContentBlock, ContentBlockType};

#[test]
fn test_content_text() {
    let content = Content::text("Hello, world!");
    assert!(content.as_text().is_some());
    assert_eq!(content.as_text().unwrap(), "Hello, world!");
    assert!(!content.is_empty());
}

#[test]
fn test_content_empty() {
    let content = Content::text("");
    assert!(content.is_empty());
}

#[test]
fn test_content_image_url() {
    let content = Content::image_url("https://example.com/image.png");
    assert!(content.as_text().is_none());
    assert!(!content.is_empty());
}

#[test]
fn test_content_image_base64() {
    let content = Content::image_base64("image/png", "iVBORw0KGgo...");
    assert!(!content.is_empty());
}

#[test]
fn test_content_from_string() {
    let content: Content = "Hello".to_string().into();
    assert_eq!(content.as_text().unwrap(), "Hello");
}

#[test]
fn test_content_from_str() {
    let content: Content = "Hello".into();
    assert_eq!(content.as_text().unwrap(), "Hello");
}

#[test]
fn test_content_to_string() {
    let text_content = Content::text("Hello");
    assert_eq!(text_content.to_string(), "Hello");

    let image_content = Content::image_url("https://example.com/img.png");
    assert!(image_content.to_string().contains("Image"));
}

#[test]
fn test_content_mixed() {
    let blocks = vec![
        ContentBlock {
            block_type: ContentBlockType::Text,
            content: BlockContent::Text("Hello".to_string()),
        },
        ContentBlock {
            block_type: ContentBlockType::Text,
            content: BlockContent::Text("World".to_string()),
        },
    ];
    let content = Content::Mixed(blocks);
    assert!(!content.is_empty());
}

#[test]
fn mixed_content_renders_its_blocks() {
    let content = Content::Mixed(vec![
        ContentBlock {
            block_type: ContentBlockType::Text,
            content: BlockContent::Text("Hello".to_string()),
        },
        ContentBlock { block_type: ContentBlockType::ImageUrl, content: BlockContent::Other },
    ]);
    assert_eq!(content.to_string(), "Hello [Complex Content]");
    assert_eq!(Content::image_url("u").to_string(), "[Image: image/jpeg]");
    assert!(Content::Mixed(vec![]).is_empty());
}

#[test]
fn texts_become_text_blocks() {
    let c = Content::from_texts(vec!["a".to_string(), "b".to_string()]);
    assert_eq!(c.to_string(), "a b");
}
