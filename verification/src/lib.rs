pub mod text;
pub mod posts;
pub mod dates;
pub mod layout;
pub mod djot;
pub mod writing;
pub mod json;
pub mod recipes;
pub mod site;
pub mod recipe_page;
