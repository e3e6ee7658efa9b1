//! Client library for the Aliyun phone-number verification service
//! (SMS verification codes): request models, parameter signing and the
//! decisions taken on the service's replies.

pub mod client;
pub mod codec;
pub mod error;
pub mod params;
pub mod percent;
pub mod signature;
pub mod text;
pub mod types;

pub use error::{Result, SmsError};
pub use params::ParamMap;
pub use signature::SignatureBuilder;
pub use types::{
    CheckResultModel, CheckSmsModel, CheckSmsRequest, CheckSmsResponse, CodeGenerationMode,
    ErrorResponse, SendSmsModel, SendSmsRequest, SendSmsResponse, SmsSignature, SmsTemplate,
    TemplateParams,
};
