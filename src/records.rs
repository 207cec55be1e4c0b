//! Stored records, request payloads and provider response shapes.

use vstd::prelude::*;

verus! {

/// Token claims: the subject (a user id) and its validity window.
#[derive(Debug, Clone)]
pub struct Claims {
    pub sub: String,
    pub exp: usize,
    pub iat: usize,
}

/// Settings read at start-up.
#[derive(Debug, Clone)]
pub struct Config {
    pub database_url: String,
    pub jwt_secret: String,
    pub encryption_key: String,
    pub google_client_id: Option<String>,
    pub google_client_secret: Option<String>,
    pub google_redirect_uri: String,
    pub disable_admin_account: bool,
}

#[derive(Debug, Clone)]
pub struct User {
    pub id: String,
    pub email: String,
    pub name: String,
    pub password_hash: Option<String>,
    pub google_id: Option<String>,
    pub avatar_url: Option<String>,
    pub role: String,
    pub created_at: String,
}

#[derive(Debug, Clone)]
pub struct Chat {
    pub id: String,
    pub user_id: String,
    pub title: String,
    pub system_prompt: Option<String>,
    pub provider: String,
    pub model: String,
    pub pinned: bool,
    pub is_branch: bool,
    pub parent_chat_id: Option<String>,
    pub branch_point_message_id: Option<String>,
    pub created_at: String,
}

#[derive(Debug, Clone)]
pub struct Message {
    pub id: String,
    pub chat_id: String,
    pub role: String,
    pub content: String,
    pub created_at: String,
}

#[derive(Debug, Clone)]
pub struct UserApiKey {
    pub user_id: String,
    pub provider: String,
    pub encrypted_key: String,
    pub created_at: String,
}

#[derive(Debug, Clone)]
pub struct UserModel {
    pub user_id: String,
    pub provider: String,
    pub model_id: String,
    pub model_name: String,
    pub is_enabled: bool,
    pub display_order: i32,
    pub created_at: String,
}

#[derive(Debug, Clone)]
pub struct SystemPrompt {
    pub id: String,
    pub user_id: String,
    pub name: String,
    pub prompt: String,
    pub description: Option<String>,
    pub is_default: bool,
    pub category: String,
    pub created_at: String,
}

#[derive(Debug, Clone)]
pub struct UserSettings {
    pub user_id: String,
    pub theme: String,
    pub language: String,
    pub font_size: i32,
    pub notifications_enabled: bool,
    pub auto_save: bool,
    pub created_at: String,
    pub updated_at: String,
}

#[derive(Debug, Clone)]
pub struct SendMessagePayload {
    pub content: String,
    pub web_search: Option<bool>,
}

#[derive(Debug, Clone)]
pub struct ParallelModelConfig {
    pub provider: String,
    pub model: String,
}

#[derive(Debug, Clone)]
pub struct ParallelLLMPayload {
    pub content: String,
    pub models: Vec<ParallelModelConfig>,
    pub web_search: Option<bool>,
}

#[derive(Debug, Clone)]
pub struct AddKeyPayload {
    pub provider: String,
    pub api_key: String,
}

#[derive(Debug, Clone)]
pub struct ApiKeyResponse {
    pub provider: String,
    pub created_at: String,
}

#[derive(Debug, Clone)]
pub struct DecryptedApiKeyResponse {
    pub provider: String,
    pub api_key: String,
    pub created_at: String,
}

#[derive(Debug, Clone)]
pub struct CreateChatPayload {
    pub title: String,
    pub system_prompt: Option<String>,
    pub provider: Option<String>,
    pub model: Option<String>,
    pub is_branch: Option<bool>,
    pub parent_chat_id: Option<String>,
    pub branch_point_message_id: Option<String>,
}

#[derive(Debug, Clone)]
pub struct UpdateChatPayload {
    pub title: Option<String>,
    pub system_prompt: Option<String>,
    pub provider: Option<String>,
    pub model: Option<String>,
    pub pinned: Option<bool>,
}

#[derive(Debug, Clone)]
pub struct BulkMessagePayload {
    pub role: String,
    pub content: String,
}

#[derive(Debug, Clone)]
pub struct BulkMessagesPayload {
    pub messages: Vec<BulkMessagePayload>,
}

#[derive(Debug, Clone)]
pub struct UpdateMessagePayload {
    pub content: String,
}

#[derive(Debug, Clone)]
pub struct CreateSystemPromptPayload {
    pub name: String,
    pub prompt: String,
    pub description: Option<String>,
    pub is_default: Option<bool>,
    pub category: Option<String>,
}

#[derive(Debug, Clone)]
pub struct UpdateSystemPromptPayload {
    pub name: Option<String>,
    pub prompt: Option<String>,
    pub description: Option<String>,
    pub is_default: Option<bool>,
    pub category: Option<String>,
}

#[derive(Debug, Clone)]
pub struct UpdateSettingsPayload {
    pub theme: Option<String>,
    pub language: Option<String>,
    pub font_size: Option<i32>,
    pub notifications_enabled: Option<bool>,
    pub auto_save: Option<bool>,
}

#[derive(Debug, Clone)]
pub struct FetchModelsPayload {
    pub provider: String,
}

#[derive(Debug, Clone)]
pub struct UserModelUpdate {
    pub provider: String,
    pub model_id: String,
    pub model_name: String,
    pub is_enabled: bool,
    pub display_order: i32,
}

#[derive(Debug, Clone)]
pub struct UpdateModelPreferencesPayload {
    pub models: Vec<UserModelUpdate>,
}

#[derive(Debug, Clone)]
pub struct ToggleModelPayload {
    pub provider: String,
    pub model_id: String,
    pub model_name: String,
}

#[derive(Debug, Clone)]
pub struct WsAuthQuery {
    pub token: String,
}

#[derive(Debug, Clone)]
pub struct RegisterPayload {
    pub name: String,
    pub email: String,
    pub password: String,
}

#[derive(Debug, Clone)]
pub struct LoginPayload {
    pub email: String,
    pub password: String,
}

#[derive(Debug, Clone)]
pub struct GoogleCallbackQuery {
    pub code: String,
    pub state: String,
}

#[derive(Debug, Clone)]
pub struct GoogleUserInfo {
    pub id: String,
    pub email: String,
    pub name: String,
    pub picture: Option<String>,
}

#[derive(Debug, Clone)]
pub struct AuthResponse {
    pub token: String,
    pub user: User,
}

/// A model entry as one vendor lists it, before normalization.
#[derive(Debug, Clone)]
pub struct Model {
    pub id: String,
    pub object: String,
    pub created: i64,
    pub owned_by: String,
}

#[derive(Debug, Clone)]
pub struct ModelsResponse {
    pub object: String,
    pub data: Vec<Model>,
}

#[derive(Debug, Clone)]
pub struct AnthropicModel {
    pub id: String,
    pub display_name: Option<String>,
    pub created_at: Option<String>,
}

#[derive(Debug, Clone)]
pub struct AnthropicModelsResponse {
    pub data: Vec<AnthropicModel>,
}

#[derive(Debug, Clone)]
pub struct GeminiModel {
    pub name: String,
    pub description: Option<String>,
}

#[derive(Debug, Clone)]
pub struct GeminiModelsResponse {
    pub models: Vec<GeminiModel>,
}

/// An OpenRouter listing entry (its pricing is not read here).
#[derive(Debug, Clone)]
pub struct OpenRouterModel {
    pub id: String,
    pub name: String,
    pub created: i64,
    pub description: String,
    pub context_length: i32,
}

/// A model as every vendor's listing is presented to clients.
#[derive(Debug, Clone)]
pub struct NormalizedModel {
    pub id: String,
    pub name: String,
    pub provider: String,
    pub description: Option<String>,
    pub context_length: Option<i32>,
    pub created: i64,
}

} // verus!
