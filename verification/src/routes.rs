pub mod channels;
pub mod replies;
pub mod score;
pub mod users;
