//! The users module's migrations: its versioned schema changes, to be
//! aggregated with other modules' lists and handed to the runner.

use vstd::prelude::*;
use crate::migrations::Migration;

verus! {

/// Migration 1: create the users table with its indexes and its
/// `updated_at` trigger.
pub const MIGRATION_CREATE_USERS_TABLE: &'static str = "\n-- Create users table\nCREATE TABLE IF NOT EXISTS users (\n    id UUID PRIMARY KEY,\n    username VARCHAR(255) NOT NULL UNIQUE,\n    email VARCHAR(255) NOT NULL UNIQUE,\n    full_name VARCHAR(255) NOT NULL,\n    age INTEGER,\n    created_at TIMESTAMP WITH TIME ZONE DEFAULT CURRENT_TIMESTAMP,\n    updated_at TIMESTAMP WITH TIME ZONE DEFAULT CURRENT_TIMESTAMP\n);\n\n-- Create indexes for better query performance\nCREATE INDEX IF NOT EXISTS idx_users_username ON users(username);\nCREATE INDEX IF NOT EXISTS idx_users_email ON users(email);\nCREATE INDEX IF NOT EXISTS idx_users_age ON users(age);\n\n-- Create a trigger to auto-update updated_at\nCREATE OR REPLACE FUNCTION update_updated_at_column()\nRETURNS TRIGGER AS $$\nBEGIN\n    NEW.updated_at = CURRENT_TIMESTAMP;\n    RETURN NEW;\nEND;\n$$ language 'plpgsql';\n\nCREATE TRIGGER update_users_updated_at BEFORE UPDATE ON users\n    FOR EACH ROW EXECUTE FUNCTION update_updated_at_column();\n";

/// All migrations for the users module, in ascending version order.
pub fn migrations() -> (r: Vec<Migration>)
    ensures
        r@.len() == 1,
        r@[0].module@ == "users"@,
        r@[0].version == 1,
        r@[0].name@ == "create_users_table"@,
        r@[0].sql@ == MIGRATION_CREATE_USERS_TABLE@,
{
    let mut r: Vec<Migration> = Vec::new();
    r.push(Migration::new("users", 1, "create_users_table", MIGRATION_CREATE_USERS_TABLE));
    r
}

} // verus!
