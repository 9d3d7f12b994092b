pub mod add_reward;
pub mod claim_reward;
pub mod init_farm;
pub mod init_staker;
pub mod unstake;
